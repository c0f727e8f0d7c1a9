//! Host tools advertised by a surface over the serve protocol, and the tool
//! list the model is given with them.
use vstd::prelude::*;

use crate::agent::events::ToolExecKind;
use crate::engine::chat::is_host_name;
use crate::engine::json::{
    copy_json, entries_view, items_view, json_as_str, json_get, json_get_spec, json_parse,
    json_str, lemma_array_view, lemma_object_view, parse_json, Json, JsonV,
};
use crate::text::str_eq;

verus! {

/// Tool schema advertised by a surface via `configure`.
#[derive(Debug, PartialEq)]
pub struct HostToolSpec {
    pub name: String,
    pub description: String,
    pub parameters: Json,
    pub risk: String,
    /// Where the tool runs (`exec` in the protocol).
    pub exec_kind: ToolExecKind,
}

/// The risk a host tool gets when the surface names none.
pub fn default_risk() -> (r: String)
    ensures
        r@ == "medium"@,
{
    "medium".to_string()
}

/// Where a host tool runs when the surface does not say.
pub fn default_host_exec() -> (r: ToolExecKind)
    ensures
        r == ToolExecKind::Host,
{
    ToolExecKind::Host
}

/// The OpenAI Chat Completions function-tool object of a spec.
pub open spec fn openai_tool_spec(name: Seq<char>, description: Seq<char>, parameters: JsonV) -> JsonV {
    JsonV::Object(
        seq![
            ("type"@, JsonV::Str("function"@)),
            (
                "function"@,
                JsonV::Object(
                    seq![
                        ("name"@, JsonV::Str(name)),
                        ("description"@, JsonV::Str(description)),
                        ("parameters"@, parameters),
                    ],
                ),
            ),
        ],
    )
}

impl HostToolSpec {
    /// OpenAI Chat Completions function-tool object for `set_tools`.
    pub fn to_openai_tool(&self) -> (r: Json)
        ensures
            r@ == openai_tool_spec(self.name@, self.description@, self.parameters@),
    {
        let mut f: Vec<(String, Json)> = Vec::new();
        f.push(("name".to_string(), Json::Str(self.name.clone())));
        f.push(("description".to_string(), Json::Str(self.description.clone())));
        f.push(("parameters".to_string(), copy_json(&self.parameters)));
        let ghost fv = entries_view(f@);
        proof {
            lemma_object_view(f);
        }
        let mut o: Vec<(String, Json)> = Vec::new();
        o.push(("type".to_string(), Json::Str("function".to_string())));
        o.push(("function".to_string(), Json::Object(f)));
        proof {
            lemma_object_view(o);
            assert(fv =~= seq![
                ("name"@, JsonV::Str(self.name@)),
                ("description"@, JsonV::Str(self.description@)),
                ("parameters"@, self.parameters@),
            ]);
            assert(entries_view(o@) =~= seq![
                ("type"@, JsonV::Str("function"@)),
                ("function"@, JsonV::Object(fv)),
            ]);
        }
        Json::Object(o)
    }
}

/// `/function/name` of a tool object.
pub open spec fn tool_name_of(tool: JsonV) -> Option<Seq<char>> {
    match json_get_spec(tool, "function"@) {
        Some(f) => json_str(json_get_spec(f, "name"@)),
        None => None,
    }
}

pub open spec fn host_names_of(host: Seq<HostToolSpec>) -> Seq<String> {
    Seq::new(host.len(), |i: int| host[i].name)
}

/// A default tool stays unless a host tool has its name.
pub open spec fn keeps_default(tool: JsonV, host: Seq<HostToolSpec>) -> bool {
    match tool_name_of(tool) {
        Some(n) => !is_host_name(host_names_of(host), n),
        None => true,
    }
}

pub open spec fn kept_defaults(defaults: Seq<JsonV>, host: Seq<HostToolSpec>) -> Seq<JsonV>
    decreases defaults.len(),
{
    if defaults.len() == 0 {
        Seq::empty()
    } else {
        kept_defaults(defaults.drop_last(), host) + if keeps_default(defaults.last(), host) {
            seq![defaults.last()]
        } else {
            Seq::empty()
        }
    }
}

/// The merged tool list: the defaults whose names no host tool takes, then
/// every host tool, in order.
pub open spec fn merge_tools_spec(defaults: Seq<JsonV>, host: Seq<HostToolSpec>) -> Seq<JsonV> {
    kept_defaults(defaults, host) + Seq::new(
        host.len(),
        |i: int| openai_tool_spec(host[i].name@, host[i].description@, host[i].parameters@),
    )
}

fn tool_name_exec(tool: &Json) -> (r: Option<&str>)
    ensures
        match r {
            Some(n) => tool_name_of(tool@) == Some(n@),
            None => tool_name_of(tool@).is_none(),
        },
{
    match json_get(tool, "function") {
        Some(f) => json_as_str(json_get(f, "name")),
        None => None,
    }
}

fn host_has_name(host: &[HostToolSpec], name: &str) -> (r: bool)
    ensures
        r == is_host_name(host_names_of(host@), name@),
{
    let ghost names = host_names_of(host@);
    let mut i: usize = 0;
    while i < host.len()
        invariant
            i <= host.len(),
            names == host_names_of(host@),
            forall|k: int| 0 <= k < i ==> #[trigger] names[k]@ != name@,
        decreases host.len() - i,
    {
        if str_eq(host[i].name.as_str(), name) {
            assert(names[i as int]@ == name@);
            return true;
        }
        i = i + 1;
    }
    false
}

/// Merge the default tools with the host's (host names win on a clash).
pub fn merge_tools(defaults: &[Json], host: &[HostToolSpec]) -> (r: Vec<Json>)
    ensures
        items_view(r@) == merge_tools_spec(items_view(defaults@), host@),
{
    let ghost dv = items_view(defaults@);
    let mut out: Vec<Json> = Vec::new();
    let mut i: usize = 0;
    assert(items_view(out@) =~= Seq::<JsonV>::empty());
    while i < defaults.len()
        invariant
            i <= defaults.len(),
            dv == items_view(defaults@),
            items_view(out@) == kept_defaults(dv.take(i as int), host@),
        decreases defaults.len() - i,
    {
        let keep = match tool_name_exec(&defaults[i]) {
            Some(n) => !host_has_name(host, n),
            None => true,
        };
        let ghost before = items_view(out@);
        if keep {
            out.push(copy_json(&defaults[i]));
            assert(items_view(out@) =~= before.push(dv[i as int]));
        }
        assert(dv.take(i + 1).drop_last() =~= dv.take(i as int));
        assert(kept_defaults(dv.take(i + 1), host@) =~= before + if keeps_default(dv[i as int], host@) {
            seq![dv[i as int]]
        } else {
            Seq::empty()
        });
        i = i + 1;
    }
    assert(dv.take(defaults.len() as int) =~= dv);
    let ghost kept = items_view(out@);
    let mut j: usize = 0;
    while j < host.len()
        invariant
            j <= host.len(),
            items_view(out@) == kept + Seq::new(
                j as nat,
                |k: int| openai_tool_spec(host@[k].name@, host@[k].description@, host@[k].parameters@),
            ),
        decreases host.len() - j,
    {
        let ghost before = items_view(out@);
        let t = host[j].to_openai_tool();
        let ghost tv = t@;
        out.push(t);
        assert(items_view(out@) =~= before.push(tv));
        let ghost next = kept + Seq::new(
            (j + 1) as nat,
            |k: int| openai_tool_spec(host@[k].name@, host@[k].description@, host@[k].parameters@),
        );
        assert(before.push(tv) =~= next);
        j = j + 1;
    }
    out
}


/// Host names win: no default tool left in the merged list shares its name
/// with a host tool.
pub proof fn law_merge_drops_clashing_defaults(defaults: Seq<JsonV>, host: Seq<HostToolSpec>)
    ensures
        forall|k: int|
            0 <= k < kept_defaults(defaults, host).len() ==> keeps_default(
                #[trigger] kept_defaults(defaults, host)[k],
                host,
            ),
        kept_defaults(defaults, host).len() <= defaults.len(),
    decreases defaults.len(),
{
    if defaults.len() > 0 {
        law_merge_drops_clashing_defaults(defaults.drop_last(), host);
        let prev = kept_defaults(defaults.drop_last(), host);
        assert forall|k: int|
            0 <= k < kept_defaults(defaults, host).len() implies keeps_default(
            #[trigger] kept_defaults(defaults, host)[k],
            host,
        ) by {
            if k < prev.len() {
                assert(kept_defaults(defaults, host)[k] == prev[k]);
            }
        }
    }
}


/// The table of host tools a `configure` installs: one entry per name, the
/// last spec given for it, in the order names first appear.
pub open spec fn table_insert(table: Seq<HostToolSpec>, t: HostToolSpec) -> Seq<HostToolSpec> {
    if exists|i: int| 0 <= i < table.len() && #[trigger] table[i].name@ == t.name@ {
        table.update(choose|i: int| 0 <= i < table.len() && #[trigger] table[i].name@ == t.name@, t)
    } else {
        table.push(t)
    }
}

pub open spec fn host_table_spec(tools: Seq<HostToolSpec>) -> Seq<HostToolSpec>
    decreases tools.len(),
{
    if tools.len() == 0 {
        Seq::empty()
    } else {
        table_insert(host_table_spec(tools.drop_last()), tools.last())
    }
}

/// Names in the table are distinct.
pub open spec fn distinct_names(table: Seq<HostToolSpec>) -> bool {
    forall|i: int, j: int| 0 <= i < j < table.len() ==> table[i].name@ != table[j].name@
}

fn position_of_name(table: &[HostToolSpec], name: &str) -> (r: Option<usize>)
    ensures
        match r {
            Some(i) => i < table@.len() && table@[i as int].name@ == name@,
            None => forall|j: int| 0 <= j < table@.len() ==> #[trigger] table@[j].name@ != name@,
        },
{
    let mut i: usize = 0;
    while i < table.len()
        invariant
            i <= table.len(),
            forall|j: int| 0 <= j < i ==> #[trigger] table@[j].name@ != name@,
        decreases table.len() - i,
    {
        if str_eq(table[i].name.as_str(), name) {
            return Some(i);
        }
        i = i + 1;
    }
    None
}

/// Build the host tool table from the tools of a `configure` message.
pub fn host_tool_table(tools: Vec<HostToolSpec>) -> (r: Vec<HostToolSpec>)
    ensures
        r@ == host_table_spec(tools@),
        distinct_names(r@),
{
    let ghost all = tools@;
    let mut table: Vec<HostToolSpec> = Vec::new();
    let mut rest = tools;
    let ghost mut k: int = 0;
    assert(rest@ =~= all.skip(0));
    assert(all.take(0) =~= Seq::<HostToolSpec>::empty());
    while rest.len() > 0
        invariant
            0 <= k <= all.len(),
            rest@ == all.skip(k),
            table@ == host_table_spec(all.take(k)),
            distinct_names(table@),
        decreases rest.len(),
    {
        let ghost old_rest = rest@;
        let t = rest.remove(0);
        assert(t == all[k]);
        assert(rest@ =~= all.skip(k + 1));
        assert(all.take(k + 1).drop_last() =~= all.take(k));
        let ghost before = table@;
        match position_of_name(table.as_slice(), t.name.as_str()) {
            Some(i) => {
                proof {
                    let c = choose|j: int| 0 <= j < before.len() && #[trigger] before[j].name@ == t.name@;
                    if c != i {
                        assert(before[c].name@ == before[i as int].name@);
                    }
                }
                table.set(i, t);
            },
            None => {
                table.push(t);
            },
        }
        proof {
            k = k + 1;
        }
    }
    assert(all.take(k) =~= all);
    table
}

/// The risk the table declares for a tool: that of the first entry with its
/// name, if there is one.
pub fn declared_risk(table: &[HostToolSpec], name: &str) -> (r: Option<String>)
    ensures
        match r {
            Some(x) => exists|i: int|
                0 <= i < table@.len() && #[trigger] table@[i].name@ == name@ && x@ == table@[i].risk@
                    && forall|j: int| 0 <= j < i ==> #[trigger] table@[j].name@ != name@,
            None => forall|j: int| 0 <= j < table@.len() ==> #[trigger] table@[j].name@ != name@,
        },
{
    let mut i: usize = 0;
    while i < table.len()
        invariant
            i <= table.len(),
            forall|j: int| 0 <= j < i ==> #[trigger] table@[j].name@ != name@,
        decreases table.len() - i,
    {
        if str_eq(table[i].name.as_str(), name) {
            let r = table[i].risk.clone();
            assert(table@[i as int].name@ == name@);
            return Some(r);
        }
        i = i + 1;
    }
    None
}

/// The error for a tools JSON text that is not an array.
pub open spec fn not_tool_array_message() -> Seq<char> {
    "tools JSON is not an array"@
}

/// Merge the default tools, given as JSON text, with the host's (host names
/// win on a clash). The text must hold an array; serde_json's error is
/// passed on when it does not parse.
pub fn merge_tools_text(defaults_json: &str, host: &[HostToolSpec]) -> (r: Result<Vec<Json>, String>)
    ensures
        match json_parse(defaults_json@) {
            Ok(JsonV::Array(items)) => r matches Ok(v) && items_view(v@) == merge_tools_spec(
                items,
                host@,
            ),
            Ok(_) => r matches Err(m) && m@ == not_tool_array_message(),
            Err(e) => r matches Err(m) && m@ == e,
        },
{
    match parse_json(defaults_json) {
        Ok(Json::Array(items)) => {
            proof {
                lemma_array_view(items);
            }
            Ok(merge_tools(items.as_slice(), host))
        },
        Ok(_) => Err("tools JSON is not an array".to_string()),
        Err(e) => Err(e),
    }
}

} // verus!
