//! The `servers.*` surface of a script, built from the catalog of exposed tool names.

use vstd::prelude::*;
use vstd::string::*;

use crate::names::{chars_are_ident, chars_literal, chars_to_camel, split_exposed_name};
use crate::text::chars_of;

verus! {

/// Dictionary order of texts.
pub open spec fn text_before(a: Seq<char>, b: Seq<char>) -> bool
    decreases a.len(),
{
    if b.len() == 0 {
        false
    } else if a.len() == 0 {
        true
    } else if a[0] != b[0] {
        a[0] < b[0]
    } else {
        text_before(a.skip(1), b.skip(1))
    }
}

proof fn lemma_text_before_irreflexive(a: Seq<char>)
    ensures
        !text_before(a, a),
    decreases a.len(),
{
    if a.len() > 0 {
        lemma_text_before_irreflexive(a.skip(1));
    }
}

proof fn lemma_text_before_transitive(a: Seq<char>, b: Seq<char>, c: Seq<char>)
    requires
        text_before(a, b),
        text_before(b, c),
    ensures
        text_before(a, c),
    decreases a.len(),
{
    if a.len() > 0 && a[0] == b[0] && b[0] == c[0] {
        lemma_text_before_transitive(a.skip(1), b.skip(1), c.skip(1));
    }
}

proof fn lemma_text_before_total(a: Seq<char>, b: Seq<char>)
    ensures
        text_before(a, b) || a == b || text_before(b, a),
    decreases a.len(),
{
    if a.len() == 0 {
        if b.len() == 0 {
            assert(a =~= b);
        }
    } else if b.len() > 0 && a[0] == b[0] {
        lemma_text_before_total(a.skip(1), b.skip(1));
        if a.skip(1) == b.skip(1) {
            assert(a =~= seq![a[0]] + a.skip(1));
            assert(b =~= seq![b[0]] + b.skip(1));
        }
    }
}

/// A tool of the catalog: its server and its own name.
pub type Tool = (Seq<char>, Seq<char>);

/// The order of the catalog: by server, and within a server by tool.
pub open spec fn tool_before(a: Tool, b: Tool) -> bool {
    text_before(a.0, b.0) || (a.0 == b.0 && text_before(a.1, b.1))
}

proof fn lemma_tool_before_irreflexive(a: Tool)
    ensures
        !tool_before(a, a),
{
    lemma_text_before_irreflexive(a.0);
    lemma_text_before_irreflexive(a.1);
}

proof fn lemma_tool_before_transitive(a: Tool, b: Tool, c: Tool)
    requires
        tool_before(a, b),
        tool_before(b, c),
    ensures
        tool_before(a, c),
{
    if text_before(a.0, b.0) {
        if text_before(b.0, c.0) {
            lemma_text_before_transitive(a.0, b.0, c.0);
        }
    } else if !text_before(b.0, c.0) {
        lemma_text_before_transitive(a.1, b.1, c.1);
    }
}

proof fn lemma_tool_before_total(a: Tool, b: Tool)
    ensures
        tool_before(a, b) || a == b || tool_before(b, a),
{
    lemma_text_before_total(a.0, b.0);
    lemma_text_before_total(a.1, b.1);
}

/// Each tool stands before the next: sorted, and none twice.
pub open spec fn strictly_sorted(tools: Seq<Tool>) -> bool {
    forall|i: int, j: int| 0 <= i < j < tools.len() ==> tool_before(tools[i], tools[j])
}

/// `tool` is named by the catalog: an exposed name splits into it, and neither part is empty.
pub open spec fn in_catalog(catalog: Seq<String>, tool: Tool) -> bool {
    &&& tool.0.len() > 0
    &&& tool.1.len() > 0
    &&& exists|i: int|
        0 <= i < catalog.len() && crate::names::split_name(#[trigger] catalog[i]@) == Some(tool)
}

/// `tools` are the tools of the catalog, in order.
pub open spec fn is_index_of(tools: Seq<Tool>, catalog: Seq<String>) -> bool {
    &&& strictly_sorted(tools)
    &&& forall|tool: Tool| tools.contains(tool) <==> in_catalog(catalog, tool)
}

/// The tools of the catalog, in order.
pub open spec fn catalog_index(catalog: Seq<String>) -> Seq<Tool> {
    choose|tools: Seq<Tool>| is_index_of(tools, catalog)
}

proof fn lemma_same_tools_same_sequence(a: Seq<Tool>, b: Seq<Tool>)
    requires
        strictly_sorted(a),
        strictly_sorted(b),
        forall|tool: Tool| a.contains(tool) <==> b.contains(tool),
    ensures
        a == b,
    decreases a.len(),
{
    if a.len() == 0 {
        if b.len() > 0 {
            assert(b.contains(b[0]));
            assert(a.contains(b[0]));
        }
        assert(a =~= b);
    } else {
        assert(a.contains(a.last()));
        assert(b.contains(a.last()));
        let k = choose|k: int| 0 <= k < b.len() && b[k] == a.last();
        assert(b.contains(b.last()));
        assert(a.contains(b.last()));
        let m = choose|m: int| 0 <= m < a.len() && a[m] == b.last();
        if k < b.len() - 1 {
            assert(tool_before(b[k], b[b.len() - 1]));
            if m < a.len() - 1 {
                assert(tool_before(a[m], a[a.len() - 1]));
                lemma_tool_before_transitive(a.last(), b.last(), a.last());
            }
            lemma_tool_before_irreflexive(a.last());
            assert(false);
        }
        let a1 = a.drop_last();
        let b1 = b.drop_last();
        assert forall|tool: Tool| a1.contains(tool) <==> b1.contains(tool) by {
            if a1.contains(tool) {
                let i = choose|i: int| 0 <= i < a1.len() && a1[i] == tool;
                assert(a[i] == tool);
                assert(a.contains(tool));
                let j = choose|j: int| 0 <= j < b.len() && b[j] == tool;
                if j == b.len() - 1 {
                    assert(tool_before(a[i], a[a.len() - 1]));
                    lemma_tool_before_irreflexive(tool);
                }
                assert(b1[j] == tool);
            }
            if b1.contains(tool) {
                let i = choose|i: int| 0 <= i < b1.len() && b1[i] == tool;
                assert(b[i] == tool);
                assert(b.contains(tool));
                let j = choose|j: int| 0 <= j < a.len() && a[j] == tool;
                if j == a.len() - 1 {
                    assert(tool_before(b[i], b[b.len() - 1]));
                    lemma_tool_before_irreflexive(tool);
                }
                assert(a1[j] == tool);
            }
        }
        lemma_same_tools_same_sequence(a1, b1);
        assert(a =~= a1.push(a.last()));
        assert(b =~= b1.push(b.last()));
    }
}

proof fn lemma_insert(tools: Seq<Tool>, tool: Tool) -> (wider: Seq<Tool>)
    requires
        strictly_sorted(tools),
    ensures
        strictly_sorted(wider),
        forall|t: Tool| wider.contains(t) <==> (tools.contains(t) || t == tool),
    decreases tools.len(),
{
    if tools.contains(tool) {
        tools
    } else if tools.len() == 0 {
        lemma_push_contains(tools, tool);
        tools.push(tool)
    } else {
        let last = tools.last();
        assert(tools.contains(last));
        lemma_tool_before_total(last, tool);
        if tool_before(last, tool) {
            let wider = tools.push(tool);
            assert forall|i: int, j: int| 0 <= i < j < wider.len() implies tool_before(
                wider[i],
                wider[j],
            ) by {
                if j == tools.len() && i < tools.len() - 1 {
                    lemma_tool_before_transitive(tools[i], last, tool);
                }
            }
            lemma_push_contains(tools, tool);
            wider
        } else {
            let shorter = tools.drop_last();
            let inner = lemma_insert(shorter, tool);
            let wider = inner.push(last);
            assert(tools =~= shorter.push(last));
            lemma_push_contains(shorter, last);
            lemma_push_contains(inner, last);
            assert forall|i: int, j: int| 0 <= i < j < wider.len() implies tool_before(
                wider[i],
                wider[j],
            ) by {
                if j == inner.len() {
                    assert(inner.contains(inner[i]));
                    if inner[i] != tool {
                        assert(shorter.contains(inner[i]));
                        let k = choose|k: int| 0 <= k < shorter.len() && shorter[k] == inner[i];
                        assert(tool_before(tools[k], tools[tools.len() - 1]));
                    }
                }
            }
            assert forall|t: Tool| wider.contains(t) <==> (tools.contains(t) || t == tool) by {
                assert(inner.contains(t) <==> (shorter.contains(t) || t == tool));
                assert(inner.push(last).contains(t) <==> (inner.contains(t) || t == last));
                assert(shorter.push(last).contains(t) <==> (shorter.contains(t) || t == last));
            }
            wider
        }
    }
}

proof fn lemma_push_contains(tools: Seq<Tool>, tool: Tool)
    ensures
        forall|t: Tool| tools.push(tool).contains(t) <==> (tools.contains(t) || t == tool),
{
    let wider = tools.push(tool);
    assert forall|t: Tool| wider.contains(t) <==> (tools.contains(t) || t == tool) by {
        if tools.contains(t) {
            let i = choose|i: int| 0 <= i < tools.len() && tools[i] == t;
            assert(wider[i] == t);
        }
        if t == tool {
            assert(wider[tools.len() as int] == t);
        }
    }
}

proof fn lemma_index_exists(catalog: Seq<String>) -> (tools: Seq<Tool>)
    ensures
        is_index_of(tools, catalog),
    decreases catalog.len(),
{
    if catalog.len() == 0 {
        Seq::empty()
    } else {
        let shorter = catalog.drop_last();
        let tools = lemma_index_exists(shorter);
        let parts = crate::names::split_name(catalog.last()@);
        assert forall|t: Tool|
            in_catalog(catalog, t) <==> in_catalog(shorter, t) || (parts == Some(t) && t.0.len() > 0
                && t.1.len() > 0) by {
            if in_catalog(catalog, t) {
                let i = choose|i: int|
                    0 <= i < catalog.len() && crate::names::split_name(#[trigger] catalog[i]@)
                        == Some(t);
                if i < shorter.len() {
                    assert(shorter[i] == catalog[i]);
                }
            }
            if in_catalog(shorter, t) {
                let i = choose|i: int|
                    0 <= i < shorter.len() && crate::names::split_name(#[trigger] shorter[i]@)
                        == Some(t);
                assert(catalog[i] == shorter[i]);
            }
            if parts == Some(t) {
                assert(catalog[catalog.len() - 1] == catalog.last());
            }
        }
        match parts {
            Some(tool) if tool.0.len() > 0 && tool.1.len() > 0 => lemma_insert(tools, tool),
            _ => tools,
        }
    }
}

/// The index lists each tool that the catalog names once, and nothing else, in order.
pub proof fn law_index_lists_the_catalog(catalog: Seq<String>)
    ensures
        is_index_of(catalog_index(catalog), catalog),
{
    let tools = lemma_index_exists(catalog);
}

/// The prelude depends only on which tools the catalog names: not on their order, nor on how often
/// each is named, nor on names that are no tool's.
pub proof fn law_prelude_depends_on_the_tools_alone(a: Seq<String>, b: Seq<String>)
    requires
        forall|tool: Tool| #[trigger] in_catalog(a, tool) <==> in_catalog(b, tool),
    ensures
        prelude_text(catalog_index(a)) == prelude_text(catalog_index(b)),
{
    law_index_lists_the_catalog(a);
    law_index_lists_the_catalog(b);
    assert forall|tool: Tool| catalog_index(a).contains(tool) <==> catalog_index(b).contains(
        tool,
    ) by {
        assert(in_catalog(a, tool) <==> in_catalog(b, tool));
    }
    lemma_same_tools_same_sequence(catalog_index(a), catalog_index(b));
}

struct ToolChars {
    server: Vec<char>,
    tool: Vec<char>,
}

impl View for ToolChars {
    type V = Tool;

    closed spec fn view(&self) -> Tool {
        (self.server@, self.tool@)
    }
}

spec fn views(tools: Seq<ToolChars>) -> Seq<Tool> {
    tools.map_values(|tool: ToolChars| tool@)
}

fn chars_before(a: &Vec<char>, b: &Vec<char>) -> (before: bool)
    ensures
        before == text_before(a@, b@),
{
    let mut at: usize = 0;
    assert(a@.skip(0) =~= a@);
    assert(b@.skip(0) =~= b@);
    while at < a.len() && at < b.len() && a[at] == b[at]
        invariant
            at <= a.len(),
            at <= b.len(),
            text_before(a@, b@) == text_before(a@.skip(at as int), b@.skip(at as int)),
        decreases a.len() - at,
    {
        assert(a@.skip(at as int).skip(1) =~= a@.skip(at + 1));
        assert(b@.skip(at as int).skip(1) =~= b@.skip(at + 1));
        at = at + 1;
    }
    if at == b.len() {
        false
    } else if at == a.len() {
        true
    } else {
        a[at] < b[at]
    }
}

fn chars_equal(a: &Vec<char>, b: &Vec<char>) -> (equal: bool)
    ensures
        equal == (a@ == b@),
{
    if a.len() != b.len() {
        return false;
    }
    let mut at: usize = 0;
    while at < a.len()
        invariant
            at <= a.len() == b.len(),
            forall|i: int| 0 <= i < at ==> a@[i] == b@[i],
        decreases a.len() - at,
    {
        if a[at] != b[at] {
            return false;
        }
        at = at + 1;
    }
    assert(a@ =~= b@);
    true
}

/// Where a tool stands, or would stand, among sorted tools.
fn position(tools: &Vec<ToolChars>, server: &Vec<char>, tool: &Vec<char>) -> (at: usize)
    requires
        strictly_sorted(views(tools@)),
    ensures
        at <= tools.len(),
        forall|j: int| 0 <= j < at ==> tool_before(#[trigger] views(tools@)[j], (server@, tool@)),
        forall|j: int|
            at <= j < tools.len() ==> !tool_before(#[trigger] views(tools@)[j], (server@, tool@)),
{
    let ghost wanted = (server@, tool@);
    let mut low: usize = 0;
    let mut high: usize = tools.len();
    while low < high
        invariant
            low <= high <= tools.len(),
            strictly_sorted(views(tools@)),
            wanted == (server@, tool@),
            forall|j: int| 0 <= j < low ==> tool_before(#[trigger] views(tools@)[j], wanted),
            forall|j: int|
                high <= j < tools.len() ==> !tool_before(#[trigger] views(tools@)[j], wanted),
        decreases high - low,
    {
        let mid: usize = low + (high - low) / 2;
        let entry = &tools[mid];
        assert(views(tools@)[mid as int] == entry@);
        if chars_before(&entry.server, server) || (chars_equal(&entry.server, server)
            && chars_before(&entry.tool, tool)) {
            assert forall|j: int| 0 <= j < mid + 1 implies tool_before(
                #[trigger] views(tools@)[j],
                wanted,
            ) by {
                if j < mid {
                    lemma_tool_before_transitive(
                        views(tools@)[j],
                        views(tools@)[mid as int],
                        wanted,
                    );
                }
            }
            low = mid + 1;
        } else {
            assert forall|j: int| mid <= j < tools.len() implies !tool_before(
                #[trigger] views(tools@)[j],
                wanted,
            ) by {
                if mid < j && tool_before(views(tools@)[j], wanted) {
                    lemma_tool_before_transitive(
                        views(tools@)[mid as int],
                        views(tools@)[j],
                        wanted,
                    );
                }
            }
            high = mid;
        }
    }
    low
}

fn contains_tool(tools: &Vec<ToolChars>, server: &Vec<char>, tool: &Vec<char>) -> (found: bool)
    requires
        strictly_sorted(views(tools@)),
    ensures
        found == views(tools@).contains((server@, tool@)),
{
    let at = position(tools, server, tool);
    let ghost wanted = (server@, tool@);
    let found = at < tools.len() && chars_equal(&tools[at].server, server) && chars_equal(
        &tools[at].tool,
        tool,
    );
    proof {
        if found {
            assert(views(tools@)[at as int] == wanted);
        } else if views(tools@).contains(wanted) {
            let i = choose|i: int| 0 <= i < views(tools@).len() && views(tools@)[i] == wanted;
            if i < at {
                lemma_tool_before_irreflexive(wanted);
            } else {
                assert(i != at);
                assert(tool_before(views(tools@)[at as int], views(tools@)[i]));
            }
        }
    }
    found
}

fn insert_tool(tools: &mut Vec<ToolChars>, server: Vec<char>, tool: Vec<char>)
    requires
        strictly_sorted(views(old(tools)@)),
    ensures
        strictly_sorted(views(final(tools)@)),
        forall|t: Tool|
            views(final(tools)@).contains(t) <==> (views(old(tools)@).contains(t) || t == (
                server@,
                tool@,
            )),
{
    let ghost before = views(tools@);
    let ghost wanted = (server@, tool@);
    if contains_tool(tools, &server, &tool) {
        return ;
    }
    let at = position(tools, &server, &tool);
    tools.insert(at, ToolChars { server, tool });
    proof {
        let after = views(tools@);
        assert(after =~= before.insert(at as int, wanted));
        assert forall|i: int, j: int| 0 <= i < j < after.len() implies tool_before(
            after[i],
            after[j],
        ) by {
            if j == at {
                assert(after[i] == before[i]);
            } else if i == at {
                assert(after[j] == before[j - 1]);
                lemma_tool_before_total(before[j - 1], wanted);
                assert(before.contains(before[j - 1]));
            } else {
                let i0 = if i < at { i } else { i - 1 };
                let j0 = if j < at { j } else { j - 1 };
                assert(after[i] == before[i0]);
                assert(after[j] == before[j0]);
            }
        }
        assert forall|t: Tool| after.contains(t) <==> (before.contains(t) || t == wanted) by {
            if after.contains(t) {
                let i = choose|i: int| 0 <= i < after.len() && after[i] == t;
                if i < at {
                    assert(before[i] == t);
                } else if i > at {
                    assert(before[i - 1] == t);
                }
            }
            if before.contains(t) {
                let i = choose|i: int| 0 <= i < before.len() && before[i] == t;
                if i < at {
                    assert(after[i] == t);
                } else {
                    assert(after[i + 1] == t);
                }
            }
            if t == wanted {
                assert(after[at as int] == t);
            }
        }
    }
}

fn index_catalog(catalog: &[String]) -> (tools: Vec<ToolChars>)
    ensures
        views(tools@) == catalog_index(catalog@),
        is_index_of(views(tools@), catalog@),
{
    let mut tools: Vec<ToolChars> = Vec::new();
    let mut at: usize = 0;
    assert(views(tools@) =~= Seq::empty());
    while at < catalog.len()
        invariant
            at <= catalog.len(),
            is_index_of(views(tools@), catalog@.take(at as int)),
        decreases catalog.len() - at,
    {
        let ghost before = views(tools@);
        let ghost seen = catalog@.take(at as int);
        let ghost next = catalog@.take(at + 1);
        let ghost parts = crate::names::split_name(catalog@[at as int]@);
        if let Some((server, tool)) = split_exposed_name(catalog[at].as_str()) {
            if !server.is_empty() && !tool.is_empty() {
                insert_tool(&mut tools, chars_of(server), chars_of(tool));
            }
        }
        proof {
            assert forall|t: Tool| views(tools@).contains(t) <==> in_catalog(next, t) by {
                if in_catalog(next, t) {
                    let i = choose|i: int|
                        0 <= i < next.len() && crate::names::split_name(#[trigger] next[i]@)
                            == Some(t);
                    if i < at {
                        assert(seen[i] == next[i]);
                        assert(in_catalog(seen, t));
                    }
                }
                if in_catalog(seen, t) {
                    let i = choose|i: int|
                        0 <= i < seen.len() && crate::names::split_name(#[trigger] seen[i]@)
                            == Some(t);
                    assert(next[i] == seen[i]);
                    assert(in_catalog(next, t));
                }
                if parts == Some(t) && t.0.len() > 0 && t.1.len() > 0 {
                    assert(next[at as int] == catalog@[at as int]);
                    assert(in_catalog(next, t));
                }
            }
        }
        at = at + 1;
    }
    assert(catalog@.take(at as int) =~= catalog@);
    proof {
        lemma_same_tools_same_sequence(views(tools@), catalog_index(catalog@));
    }
    tools
}

/// What stands before the first server.
pub const HEAD: &'static str = "(function () {
  var servers = Object.create(null);
  function stub(fullName) {
    var f = function (args) {
      return toolport.call(fullName, args === undefined || args === null ? {} : args);
    };
    f.async = function (args) {
      return toolport.callAsync(fullName, args === undefined || args === null ? {} : args);
    };
    f.toolName = fullName;
    return f;
  }
  function ensure(server) {
    if (!servers[server]) servers[server] = Object.create(null);
    return servers[server];
  }
";

/// What stands between the last server and the list of tools.
pub const LIST: &'static str = "  globalThis.servers = servers;
  var __toolport_catalog = [";

/// What stands after the list of tools.
pub const TAIL: &'static str = "];
  toolport.listTools = function () { return __toolport_catalog.slice(); };
  toolport.listServers = function () { return Object.keys(servers); };
})();
";

/// The exposed name of a tool.
pub open spec fn exposed_name(tool: Tool) -> Seq<char> {
    crate::names::join_name(tool.0, tool.1)
}

/// The lines that open a server's block.
pub open spec fn open_text(server: Seq<char>) -> Seq<char> {
    "  {\n    var s = ensure("@ + crate::names::literal(server) + ");\n"@
}

/// The line that binds a tool's stub.
pub open spec fn stub_text(tool: Tool) -> Seq<char> {
    "    s["@ + crate::names::literal(tool.1) + "] = stub("@ + crate::names::literal(
        exposed_name(tool),
    ) + ");\n"@
}

/// The line that binds a tool's camel-case alias.
pub open spec fn alias_text(tool: Seq<char>) -> Seq<char> {
    "    if (s["@ + crate::names::literal(crate::names::camel(tool)) + "] === undefined) s["@
        + crate::names::literal(crate::names::camel(tool)) + "] = s["@ + crate::names::literal(tool)
        + "];\n"@
}

/// A tool has an alias when its camel-case form differs from its name, is an identifier, and is
/// not the name of another tool of its server.
pub open spec fn has_alias(tools: Seq<Tool>, tool: Tool) -> bool {
    &&& crate::names::camel(tool.1) != tool.1
    &&& crate::names::is_ident(crate::names::camel(tool.1))
    &&& !tools.contains((tool.0, crate::names::camel(tool.1)))
}

/// The tool at `at` is the first of its server.
pub open spec fn first_of_server(tools: Seq<Tool>, at: int) -> bool {
    at == 0 || tools[at - 1].0 != tools[at].0
}

/// The tool at `at` is the last of its server.
pub open spec fn last_of_server(tools: Seq<Tool>, at: int) -> bool {
    at == tools.len() - 1 || tools[at + 1].0 != tools[at].0
}

/// What the tool at `at` adds to the text.
pub open spec fn tool_text(tools: Seq<Tool>, at: int) -> Seq<char> {
    (if first_of_server(tools, at) {
        open_text(tools[at].0)
    } else {
        Seq::empty()
    }) + stub_text(tools[at]) + (if has_alias(tools, tools[at]) {
        alias_text(tools[at].1)
    } else {
        Seq::empty()
    }) + (if last_of_server(tools, at) {
        "  }\n"@
    } else {
        Seq::empty()
    })
}

/// What the first `count` tools add to the text.
pub open spec fn tools_text(tools: Seq<Tool>, count: nat) -> Seq<char>
    decreases count,
{
    if count == 0 {
        Seq::empty()
    } else {
        tools_text(tools, (count - 1) as nat) + tool_text(tools, count - 1)
    }
}

/// The exposed names of the first `count` tools as literals, separated by commas.
pub open spec fn list_text(tools: Seq<Tool>, count: nat) -> Seq<char>
    decreases count,
{
    if count == 0 {
        Seq::empty()
    } else if count == 1 {
        crate::names::literal(exposed_name(tools[0]))
    } else {
        list_text(tools, (count - 1) as nat) + ", "@ + crate::names::literal(
            exposed_name(tools[count - 1]),
        )
    }
}

/// The script that installs the stubs of `tools`.
pub open spec fn prelude_text(tools: Seq<Tool>) -> Seq<char> {
    HEAD@ + tools_text(tools, tools.len()) + LIST@ + list_text(tools, tools.len()) + TAIL@
}

/// The camel-case form of an ASCII name is spelled out.
pub open spec fn ascii_camel_holds(name: Seq<char>) -> bool {
    vstd::utf8::is_ascii_chars(name) ==> crate::names::camel(name) == crate::names::ascii_camel(
        name,
    )
}

fn name_literal(tool: &ToolChars) -> (out: String)
    ensures
        out@ == crate::names::literal(exposed_name(tool@)),
{
    let mut name: Vec<char> = Vec::new();
    let mut server = tool.server.clone();
    name.append(&mut server);
    name.push('_');
    name.push('_');
    let mut own = tool.tool.clone();
    name.append(&mut own);
    proof {
        reveal_strlit("__");
        assert(name@ =~= exposed_name(tool@));
    }
    chars_literal(&name)
}

fn tool_lines(tools: &Vec<ToolChars>, at: usize) -> (out: String)
    requires
        at < tools.len(),
        strictly_sorted(views(tools@)),
    ensures
        out@ == tool_text(views(tools@), at as int),
        ascii_camel_holds(views(tools@)[at as int].1),
{
    let entry = &tools[at];
    let ghost all = views(tools@);
    assert(all[at as int] == entry@);
    let tool_lit = chars_literal(&entry.tool);

    let mut out = String::new();
    if at == 0 || !chars_equal(&tools[at - 1].server, &entry.server) {
        let mut open = "  {\n    var s = ensure(".to_owned();
        open.append(chars_literal(&entry.server).as_str());
        open.append(");\n");
        out = open;
    }
    let mut stub = "    s[".to_owned();
    stub.append(tool_lit.as_str());
    stub.append("] = stub(");
    stub.append(name_literal(entry).as_str());
    stub.append(");\n");
    out.append(stub.as_str());

    let camel = chars_to_camel(&entry.tool);
    let mut alias = String::new();
    if !chars_equal(&camel, &entry.tool) && chars_are_ident(&camel) && !contains_tool(
        tools,
        &entry.server,
        &camel,
    ) {
        let camel_lit = chars_literal(&camel);
        let mut line = "    if (s[".to_owned();
        line.append(camel_lit.as_str());
        line.append("] === undefined) s[");
        line.append(camel_lit.as_str());
        line.append("] = s[");
        line.append(tool_lit.as_str());
        line.append("];\n");
        alias = line;
    }
    out.append(alias.as_str());

    let mut close = String::new();
    if at == tools.len() - 1 || !chars_equal(&tools[at + 1].server, &entry.server) {
        close = "  }\n".to_owned();
    }
    out.append(close.as_str());
    out
}

/// Builds the `globalThis.servers` injection from exposed catalog tool names (`server__tool`).
/// The stubs call through `toolport.call` and `toolport.callAsync`. An empty catalog yields an
/// empty `servers` object.
///
/// Property names use the tool segment; when its camel-case form differs and does not collide
/// with another tool on the same server, both names are registered.
pub fn build_servers_prelude(catalog: &[String]) -> (out: String)
    ensures
        out@ == prelude_text(catalog_index(catalog@)),
        forall|i: int|
            0 <= i < catalog_index(catalog@).len() ==> ascii_camel_holds(
                (#[trigger] catalog_index(catalog@)[i]).1,
            ),
{
    let tools = index_catalog(catalog);
    let ghost all = views(tools@);
    let mut blocks = String::new();
    let mut list = String::new();
    let mut at: usize = 0;
    while at < tools.len()
        invariant
            at <= tools.len(),
            all == views(tools@),
            strictly_sorted(all),
            blocks@ == tools_text(all, at as nat),
            list@ == list_text(all, at as nat),
            forall|i: int| 0 <= i < at ==> ascii_camel_holds((#[trigger] all[i]).1),
        decreases tools.len() - at,
    {
        blocks.append(tool_lines(&tools, at).as_str());
        assert(all[at as int] == tools@[at as int]@);
        if at > 0 {
            list.append(", ");
            list.append(name_literal(&tools[at]).as_str());
        } else {
            list = name_literal(&tools[at]);
        }
        at = at + 1;
    }
    let mut out = HEAD.to_owned();
    out.append(blocks.as_str());
    out.append(LIST);
    out.append(list.as_str());
    out.append(TAIL);
    out
}

/// `part` stands in `whole`, with `before` before it and `after` after it.
pub open spec fn stands_between(
    whole: Seq<char>,
    before: Seq<char>,
    part: Seq<char>,
    after: Seq<char>,
) -> bool {
    whole == before + part + after
}

/// `part` stands somewhere in `whole`.
pub open spec fn stands_in(whole: Seq<char>, part: Seq<char>) -> bool {
    exists|before: Seq<char>, after: Seq<char>| stands_between(whole, before, part, after)
}

proof fn lemma_stands_in_wider(whole: Seq<char>, part: Seq<char>, front: Seq<char>, back: Seq<char>)
    requires
        stands_in(whole, part),
    ensures
        stands_in(front + whole + back, part),
{
    let (before, after) = choose|before: Seq<char>, after: Seq<char>|
        stands_between(whole, before, part, after);
    assert(front + whole + back =~= (front + before) + part + (after + back));
    assert(stands_between(front + whole + back, front + before, part, after + back));
}

proof fn lemma_tools_text_holds(tools: Seq<Tool>, count: nat, at: int)
    requires
        0 <= at < count <= tools.len(),
    ensures
        stands_in(tools_text(tools, count), stub_text(tools[at])),
        has_alias(tools, tools[at]) ==> stands_in(
            tools_text(tools, count),
            alias_text(tools[at].1),
        ),
    decreases count,
{
    let rest = tools_text(tools, (count - 1) as nat);
    let last = tool_text(tools, count - 1);
    let empty = Seq::<char>::empty();
    assert(rest + last =~= rest + last + empty);
    assert(rest + last =~= empty + rest + last);
    if at == count - 1 {
        let opened = if first_of_server(tools, at) {
            open_text(tools[at].0)
        } else {
            empty
        };
        let alias = if has_alias(tools, tools[at]) {
            alias_text(tools[at].1)
        } else {
            empty
        };
        let closed = if last_of_server(tools, at) {
            "  }\n"@
        } else {
            empty
        };
        let stub = stub_text(tools[at]);
        assert(last =~= opened + stub + (alias + closed));
        assert(stands_between(last, opened, stub, alias + closed));
        lemma_stands_in_wider(last, stub, rest, empty);
        if has_alias(tools, tools[at]) {
            assert(last =~= (opened + stub) + alias + closed);
            assert(stands_between(last, opened + stub, alias, closed));
            lemma_stands_in_wider(last, alias, rest, empty);
        }
    } else {
        lemma_tools_text_holds(tools, (count - 1) as nat, at);
        lemma_stands_in_wider(rest, stub_text(tools[at]), empty, last);
        if has_alias(tools, tools[at]) {
            lemma_stands_in_wider(rest, alias_text(tools[at].1), empty, last);
        }
    }
}

proof fn lemma_list_text_holds(tools: Seq<Tool>, count: nat, at: int)
    requires
        0 <= at < count <= tools.len(),
    ensures
        stands_in(
            list_text(tools, count),
            crate::names::literal(exposed_name(tools[at])),
        ),
    decreases count,
{
    let empty = Seq::<char>::empty();
    let name = crate::names::literal(exposed_name(tools[at]));
    let whole = list_text(tools, count);
    if count == 1 {
        assert(whole =~= empty + name + empty);
        assert(stands_between(whole, empty, name, empty));
    } else {
        let rest = list_text(tools, (count - 1) as nat);
        let last = crate::names::literal(exposed_name(tools[count - 1]));
        if at == count - 1 {
            assert(whole =~= (rest + ", "@) + name + empty);
            assert(stands_between(whole, rest + ", "@, name, empty));
        } else {
            lemma_list_text_holds(tools, (count - 1) as nat, at);
            assert(whole =~= empty + rest + (", "@ + last));
            lemma_stands_in_wider(rest, name, empty, ", "@ + last);
        }
    }
}

/// Every tool that the catalog names has its stub in the prelude, and its exposed name in the
/// list of tools; and it has its camel-case alias where that is an identifier of its own.
pub proof fn law_every_tool_is_bound(catalog: Seq<String>, tool: Tool)
    requires
        in_catalog(catalog, tool),
    ensures
        stands_in(prelude_text(catalog_index(catalog)), stub_text(tool)),
        stands_in(
            prelude_text(catalog_index(catalog)),
            crate::names::literal(exposed_name(tool)),
        ),
        has_alias(catalog_index(catalog), tool) ==> stands_in(
            prelude_text(catalog_index(catalog)),
            alias_text(tool.1),
        ),
{
    law_index_lists_the_catalog(catalog);
    let tools = catalog_index(catalog);
    assert(tools.contains(tool));
    let at = choose|at: int| 0 <= at < tools.len() && tools[at] == tool;
    let count = tools.len();
    let blocks = tools_text(tools, count);
    let list = list_text(tools, count);
    lemma_tools_text_holds(tools, count, at);
    lemma_list_text_holds(tools, count, at);
    assert(prelude_text(tools) =~= HEAD@ + blocks + (LIST@ + list + TAIL@));
    lemma_stands_in_wider(blocks, stub_text(tool), HEAD@, LIST@ + list + TAIL@);
    if has_alias(tools, tool) {
        lemma_stands_in_wider(blocks, alias_text(tool.1), HEAD@, LIST@ + list + TAIL@);
    }
    assert(prelude_text(tools) =~= (HEAD@ + blocks + LIST@) + list + TAIL@);
    lemma_stands_in_wider(
        list,
        crate::names::literal(exposed_name(tool)),
        HEAD@ + blocks + LIST@,
        TAIL@,
    );
}

/// An alias never takes the name of another tool of its server.
pub proof fn law_alias_keeps_tools_apart(catalog: Seq<String>, tool: Tool, other: Tool)
    requires
        has_alias(catalog_index(catalog), tool),
        in_catalog(catalog, other),
        other.0 == tool.0,
    ensures
        other.1 != crate::names::camel(tool.1),
{
    law_index_lists_the_catalog(catalog);
    if other.1 == crate::names::camel(tool.1) {
        assert(catalog_index(catalog).contains(other));
        assert(other == (tool.0, crate::names::camel(tool.1)));
    }
}

/// The texts agree before `at`, and there the first one ends or has the smaller character.
pub open spec fn parts_at(a: Seq<char>, b: Seq<char>, at: int) -> bool {
    &&& 0 <= at <= a.len()
    &&& at < b.len()
    &&& forall|k: int| 0 <= k < at ==> #[trigger] a[k] == b[k]
    &&& at == a.len() || a[at] < b[at]
}

/// Of two texts the one comes first that ends, or has the smaller character, where they part.
pub proof fn law_texts_are_ordered_where_they_part(a: Seq<char>, b: Seq<char>)
    ensures
        text_before(a, b) <==> exists|at: int| parts_at(a, b, at),
    decreases a.len(),
{
    if a.len() == 0 {
        if b.len() > 0 {
            assert(parts_at(a, b, 0));
        }
    } else if b.len() > 0 {
        if a[0] < b[0] {
            assert(parts_at(a, b, 0));
        } else if a[0] == b[0] {
            let x = a.skip(1);
            let y = b.skip(1);
            law_texts_are_ordered_where_they_part(x, y);
            if exists|at: int| parts_at(x, y, at) {
                let at = choose|at: int| parts_at(x, y, at);
                assert forall|k: int| 0 <= k < at + 1 implies #[trigger] a[k] == b[k] by {
                    if k > 0 {
                        assert(x[k - 1] == y[k - 1]);
                    }
                }
                assert(parts_at(a, b, at + 1));
            }
            if exists|at: int| parts_at(a, b, at) {
                let at = choose|at: int| parts_at(a, b, at);
                assert(at > 0);
                assert forall|k: int| 0 <= k < at - 1 implies #[trigger] x[k] == y[k] by {
                    assert(a[k + 1] == b[k + 1]);
                }
                assert(parts_at(x, y, at - 1));
            }
        } else if exists|at: int| parts_at(a, b, at) {
            let at = choose|at: int| parts_at(a, b, at);
            if at > 0 {
                assert(a[0] == b[0]);
            }
        }
    }
}

/// The index is in order, by server and then by tool, and lists no tool twice.
pub proof fn law_index_is_in_order(catalog: Seq<String>, i: int, j: int)
    requires
        0 <= i < j < catalog_index(catalog).len(),
    ensures
        catalog_index(catalog)[i] != catalog_index(catalog)[j],
        catalog_index(catalog)[i].0 != catalog_index(catalog)[j].0 ==> exists|at: int|
            parts_at(catalog_index(catalog)[i].0, catalog_index(catalog)[j].0, at),
        catalog_index(catalog)[i].0 == catalog_index(catalog)[j].0 ==> exists|at: int|
            parts_at(catalog_index(catalog)[i].1, catalog_index(catalog)[j].1, at),
{
    law_index_lists_the_catalog(catalog);
    let a = catalog_index(catalog)[i];
    let b = catalog_index(catalog)[j];
    assert(tool_before(a, b));
    lemma_tool_before_irreflexive(a);
    lemma_text_before_irreflexive(a.0);
    law_texts_are_ordered_where_they_part(a.0, b.0);
    law_texts_are_ordered_where_they_part(a.1, b.1);
}

/// Every name of the catalog that has something before its first two underscores in a row, and
/// something behind them, is in the index as these two parts.
pub proof fn law_index_has_every_tool(catalog: Seq<String>, i: int, at: int)
    requires
        0 <= i < catalog.len(),
        0 < at,
        at + 2 < catalog[i]@.len(),
        catalog[i]@[at] == '_' && catalog[i]@[at + 1] == '_',
        forall|j: int|
            0 <= j < at ==> !(#[trigger] catalog[i]@[j] == '_' && catalog[i]@[j + 1] == '_'),
    ensures
        catalog_index(catalog).contains((catalog[i]@.take(at), catalog[i]@.skip(at + 2))),
{
    law_index_lists_the_catalog(catalog);
    crate::names::law_split_at_the_first_two_underscores(catalog[i]@, at);
    let tool = (catalog[i]@.take(at), catalog[i]@.skip(at + 2));
    assert(crate::names::split_name(catalog[i]@) == Some(tool));
    assert(in_catalog(catalog, tool));
}

/// Every tool of the index is a name of the catalog, in two parts that are not empty, with two
/// underscores between them and none in a row before these.
pub proof fn law_index_has_only_tools(catalog: Seq<String>, tool: Tool)
    requires
        catalog_index(catalog).contains(tool),
    ensures
        tool.0.len() > 0 && tool.1.len() > 0,
        exists|i: int|
            0 <= i < catalog.len() && (#[trigger] catalog[i])@ == tool.0 + seq!['_', '_'] + tool.1,
        forall|j: int|
            0 <= j < tool.0.len() ==> !(#[trigger] tool.0[j] == '_' && (tool.0 + seq!['_', '_'])[j
                + 1] == '_'),
{
    law_index_lists_the_catalog(catalog);
    assert(in_catalog(catalog, tool));
    let i = choose|i: int|
        0 <= i < catalog.len() && crate::names::split_name(#[trigger] catalog[i]@) == Some(tool);
    let name = catalog[i]@;
    crate::names::law_split_then_join(name);
    reveal_strlit("__");
    assert("__"@ =~= seq!['_', '_']);
    assert(name =~= tool.0 + seq!['_', '_'] + tool.1);
    assert forall|j: int| 0 <= j < tool.0.len() implies !(#[trigger] tool.0[j] == '_' && (tool.0
        + seq!['_', '_'])[j + 1] == '_') by {
        assert(!crate::names::separator_at(name, j));
        assert(name[j] == tool.0[j]);
        assert(name[j + 1] == (tool.0 + seq!['_', '_'])[j + 1]);
    }
}

/// The tools of one server stand together in the index.
pub proof fn law_tools_of_a_server_stand_together(catalog: Seq<String>, i: int, j: int, k: int)
    requires
        0 <= i <= j <= k < catalog_index(catalog).len(),
        catalog_index(catalog)[i].0 == catalog_index(catalog)[k].0,
    ensures
        catalog_index(catalog)[j].0 == catalog_index(catalog)[i].0,
{
    law_index_lists_the_catalog(catalog);
    let tools = catalog_index(catalog);
    if i < j && j < k && tools[j].0 != tools[i].0 {
        assert(tool_before(tools[i], tools[j]));
        assert(tool_before(tools[j], tools[k]));
        lemma_text_before_transitive(tools[i].0, tools[j].0, tools[i].0);
        lemma_text_before_irreflexive(tools[i].0);
    }
}

/// The lines that bind the tools from `from` up to `to`: each its stub, by the name that it is
/// exposed under, and its alias, where the camel-case form is another word, an identifier, and no
/// tool of its server.
pub open spec fn binding_lines(tools: Seq<Tool>, from: int, to: int) -> Seq<char>
    decreases to - from,
{
    if from >= to {
        Seq::empty()
    } else {
        let tool = tools[to - 1];
        let other = crate::names::camel(tool.1);
        binding_lines(tools, from, to - 1) + ("    s["@ + crate::names::literal(tool.1)
            + "] = stub("@ + crate::names::literal(tool.0 + "__"@ + tool.1) + ");\n"@) + (if other
            != tool.1 && crate::names::is_ident(other) && !tools.contains((tool.0, other)) {
            "    if (s["@ + crate::names::literal(other) + "] === undefined) s["@
                + crate::names::literal(other) + "] = s["@ + crate::names::literal(tool.1)
                + "];\n"@
        } else {
            Seq::empty()
        })
    }
}

/// The line that a server's block opens with.
pub open spec fn ensure_lines(server: Seq<char>) -> Seq<char> {
    "  {\n    var s = ensure("@ + crate::names::literal(server) + ");\n"@
}

/// The line that closes the block of the tool before `to`, where that is the last of its server.
spec fn closing_line(tools: Seq<Tool>, to: int) -> Seq<char> {
    if to == tools.len() || tools[to].0 != tools[to - 1].0 {
        "  }\n"@
    } else {
        Seq::empty()
    }
}

spec fn alias_line(tools: Seq<Tool>, tool: Tool) -> Seq<char> {
    if has_alias(tools, tool) {
        alias_text(tool.1)
    } else {
        Seq::empty()
    }
}

proof fn lemma_binding_line(tools: Seq<Tool>, from: int, to: int)
    requires
        0 <= from < to <= tools.len(),
    ensures
        binding_lines(tools, from, to) == binding_lines(tools, from, to - 1) + stub_text(
            tools[to - 1],
        ) + alias_line(tools, tools[to - 1]),
{
}

proof fn lemma_first_in_block(
    front: Seq<char>,
    opened: Seq<char>,
    stub: Seq<char>,
    alias: Seq<char>,
    closing: Seq<char>,
)
    ensures
        front + (opened + stub + alias + closing) == front + opened + (Seq::<char>::empty() + stub
            + alias) + closing,
{
    assert(front + (opened + stub + alias + closing) =~= front + opened + (Seq::<char>::empty()
        + stub + alias) + closing);
}

proof fn lemma_next_in_block(
    front: Seq<char>,
    opened: Seq<char>,
    before: Seq<char>,
    stub: Seq<char>,
    alias: Seq<char>,
    closing: Seq<char>,
)
    ensures
        (front + opened + before + Seq::<char>::empty()) + (Seq::<char>::empty() + stub + alias
            + closing) == front + opened + (before + stub + alias) + closing,
{
    assert((front + opened + before + Seq::<char>::empty()) + (Seq::<char>::empty() + stub + alias
        + closing) =~= front + opened + (before + stub + alias) + closing);
}

#[verifier::spinoff_prover]
proof fn lemma_block_grows(tools: Seq<Tool>, from: int, to: int)
    requires
        0 <= from < to <= tools.len(),
        from == 0 || tools[from - 1].0 != tools[from].0,
        forall|k: int| from <= k < to ==> (#[trigger] tools[k]).0 == tools[from].0,
    ensures
        tools_text(tools, to as nat) == tools_text(tools, from as nat) + ensure_lines(
            tools[from].0,
        ) + binding_lines(tools, from, to) + closing_line(tools, to),
    decreases to,
{
    let last = to - 1;
    let tool = tools[last];
    let front = tools_text(tools, from as nat);
    let opened = ensure_lines(tools[from].0);
    let stub = stub_text(tool);
    let alias = alias_line(tools, tool);
    let closing = closing_line(tools, to);
    lemma_binding_line(tools, from, to);
    assert(tool.0 == tools[from].0);
    if last == from {
        lemma_first_in_block(front, opened, stub, alias, closing);
    } else {
        assert(tools[last - 1].0 == tools[from].0);
        lemma_block_grows(tools, from, last);
        lemma_next_in_block(
            front,
            opened,
            binding_lines(tools, from, last),
            stub,
            alias,
            closing,
        );
    }
}

/// The tools of a server are bound in one block: it opens with that server's own `ensure` line,
/// binds exactly that server's tools, and is closed behind the last of them.
pub proof fn law_a_server_is_one_block(tools: Seq<Tool>, from: int, to: int)
    requires
        0 <= from < to <= tools.len(),
        forall|k: int| from <= k < to ==> (#[trigger] tools[k]).0 == tools[from].0,
        from == 0 || tools[from - 1].0 != tools[from].0,
        to == tools.len() || tools[to].0 != tools[from].0,
    ensures
        tools_text(tools, 0) == Seq::<char>::empty(),
        tools_text(tools, to as nat) == tools_text(tools, from as nat) + (
        "  {\n    var s = ensure("@ + crate::names::literal(tools[from].0) + ");\n"@)
            + binding_lines(tools, from, to) + "  }\n"@,
{
    lemma_block_grows(tools, from, to);
}

/// Where a tool's block opens in the list of tools.
pub open spec fn opens_at(tools: Seq<Tool>, from: int, at: int) -> bool {
    &&& 0 <= from <= at
    &&& from == 0 || tools[from - 1].0 != tools[from].0
    &&& forall|k: int| from <= k <= at ==> (#[trigger] tools[k]).0 == tools[at].0
}

proof fn lemma_block_opens(tools: Seq<Tool>, at: int) -> (from: int)
    requires
        0 <= at < tools.len(),
    ensures
        opens_at(tools, from, at),
    decreases at,
{
    if at == 0 || tools[at - 1].0 != tools[at].0 {
        at
    } else {
        let from = lemma_block_opens(tools, at - 1);
        assert forall|k: int| from <= k <= at implies (#[trigger] tools[k]).0 == tools[at].0 by {
            if k < at {
                assert(tools[k].0 == tools[at - 1].0);
            }
        }
        from
    }
}

proof fn lemma_tools_text_stands_in(tools: Seq<Tool>, count: nat, part: Seq<char>)
    requires
        count <= tools.len(),
        stands_in(tools_text(tools, count), part),
    ensures
        stands_in(prelude_text(tools), part),
    decreases tools.len() - count,
{
    let all = tools.len();
    if count == all {
        assert(prelude_text(tools) =~= HEAD@ + tools_text(tools, all) + (LIST@ + list_text(
            tools,
            all,
        ) + TAIL@));
        lemma_stands_in_wider(
            tools_text(tools, all),
            part,
            HEAD@,
            LIST@ + list_text(tools, all) + TAIL@,
        );
    } else {
        let more = tool_text(tools, count as int);
        assert(tools_text(tools, count + 1) =~= Seq::<char>::empty() + tools_text(tools, count)
            + more);
        lemma_stands_in_wider(tools_text(tools, count), part, Seq::empty(), more);
        lemma_tools_text_stands_in(tools, count + 1, part);
    }
}

/// Every tool is bound on its own server: in the prelude its stub stands behind its own server's
/// `ensure` line, with nothing between the two but lines that bind tools of that server.
pub proof fn law_each_tool_is_bound_on_its_own_server(catalog: Seq<String>, at: int)
    requires
        0 <= at < catalog_index(catalog).len(),
    ensures
        ({
            let tools = catalog_index(catalog);
            exists|from: int| #[trigger]
                opens_at(tools, from, at) && stands_in(
                    prelude_text(tools),
                    ("  {\n    var s = ensure("@ + crate::names::literal(tools[at].0) + ");\n"@)
                        + binding_lines(tools, from, at) + ("    s["@ + crate::names::literal(
                        tools[at].1,
                    ) + "] = stub("@ + crate::names::literal(tools[at].0 + "__"@ + tools[at].1)
                        + ");\n"@),
                )
        }),
{
    let tools = catalog_index(catalog);
    let from = lemma_block_opens(tools, at);
    let to = at + 1;
    let server = tools[at].0;
    assert(tools[from].0 == server);
    assert forall|k: int| from <= k < to implies (#[trigger] tools[k]).0 == tools[from].0 by {
        assert(tools[k].0 == tools[at].0);
    }
    lemma_block_grows(tools, from, to);
    let front = tools_text(tools, from as nat);
    let opened = ensure_lines(server);
    let lines = binding_lines(tools, from, at);
    let stub = stub_text(tools[at]);
    let alias = alias_line(tools, tools[at]);
    let closing = closing_line(tools, to);
    lemma_binding_line(tools, from, to);
    lemma_part_of_block(front, opened, lines, stub, alias, closing);
    let part = opened + lines + stub;
    assert(stands_between(tools_text(tools, to as nat), front, part, alias + closing));
    lemma_tools_text_stands_in(tools, to as nat, part);
    assert(opens_at(tools, from, at));
}

proof fn lemma_part_of_block(
    front: Seq<char>,
    opened: Seq<char>,
    lines: Seq<char>,
    stub: Seq<char>,
    alias: Seq<char>,
    closing: Seq<char>,
)
    ensures
        front + opened + (lines + stub + alias) + closing == front + (opened + lines + stub) + (
        alias + closing),
{
    assert(front + opened + (lines + stub + alias) + closing =~= front + (opened + lines + stub) + (
    alias + closing));
}

/// The list of tools has each exposed name in turn, with a comma between two, and no other.
pub proof fn law_tools_are_listed_in_turn(tools: Seq<Tool>, count: nat)
    requires
        count < tools.len(),
    ensures
        list_text(tools, 0) == Seq::<char>::empty(),
        list_text(tools, count + 1) == list_text(tools, count) + (if count == 0 {
            Seq::empty()
        } else {
            seq![',', ' ']
        }) + crate::names::literal(tools[count as int].0 + seq!['_', '_'] + tools[count as int].1),
        prelude_text(tools) == HEAD@ + tools_text(tools, tools.len()) + LIST@ + list_text(
            tools,
            tools.len(),
        ) + TAIL@,
{
    reveal_strlit("__");
    reveal_strlit(", ");
    assert("__"@ =~= seq!['_', '_']);
    assert(", "@ =~= seq![',', ' ']);
    let name = crate::names::literal(tools[count as int].0 + seq!['_', '_'] + tools[count as int].1);
    if count == 0 {
        assert(Seq::<char>::empty() + Seq::empty() + name =~= name);
    }
}

} // verus!
