//! The tool catalog: the flattened tool list merged from every server's
//! discovery result, and the name-to-server routing table built beside it.
//! Routing is decided here alone; a name nobody owns fails before any
//! server is contacted.

use vstd::prelude::*;
use vstd::string::*;
use crate::errors::McpError;
use crate::tools::McpTool;

verus! {

/// The routing entries one server contributes: one `(tool name, server
/// name)` pair per tool, in discovery order.
pub open spec fn spec_server_entries(server: String, tools: Seq<McpTool>) -> Seq<(String, String)>
    decreases tools.len(),
{
    if tools.len() == 0 {
        Seq::empty()
    } else {
        spec_server_entries(server, tools.drop_last()) + seq![(tools.last().name, server)]
    }
}

/// The routing entries of a whole refresh: servers in order, a failing
/// server contributing nothing.
pub open spec fn spec_route_entries(results: Seq<(String, Option<Vec<McpTool>>)>) -> Seq<
    (String, String),
>
    decreases results.len(),
{
    if results.len() == 0 {
        Seq::empty()
    } else {
        spec_route_entries(results.drop_last()) + (match results.last().1 {
            Some(ts) => spec_server_entries(results.last().0, ts@),
            None => Seq::<(String, String)>::empty(),
        })
    }
}

/// The flattened tool list of a refresh: every discovered tool of every
/// answering server, in order; a failing server contributes nothing.
pub open spec fn spec_flat_tools(results: Seq<(String, Option<Vec<McpTool>>)>) -> Seq<McpTool>
    decreases results.len(),
{
    if results.len() == 0 {
        Seq::empty()
    } else {
        spec_flat_tools(results.drop_last()) + (match results.last().1 {
            Some(ts) => ts@,
            None => Seq::<McpTool>::empty(),
        })
    }
}

/// The server that owns a tool name: the owner registered last wins, as
/// later discoveries overwrite earlier ones on a name collision.
pub open spec fn spec_lookup(entries: Seq<(String, String)>, name: Seq<char>) -> Option<String>
    decreases entries.len(),
{
    if entries.len() == 0 {
        None
    } else if entries.last().0@ == name {
        Some(entries.last().1)
    } else {
        spec_lookup(entries.drop_last(), name)
    }
}

/// Looking a name up in concatenated entries: a match among the later
/// entries wins, else the earlier entries decide.
pub proof fn lemma_lookup_append(a: Seq<(String, String)>, b: Seq<(String, String)>, name: Seq<
    char,
>)
    ensures
        spec_lookup(a + b, name) == (match spec_lookup(b, name) {
            Some(srv) => Some(srv),
            None => spec_lookup(a, name),
        }),
    decreases b.len(),
{
    if b.len() == 0 {
        assert(a + b =~= a);
    } else {
        assert((a + b).drop_last() =~= a + b.drop_last());
        assert((a + b).last() == b.last());
        lemma_lookup_append(a, b.drop_last(), name);
    }
}

/// A name none of a server's tools bear is not routed by that server's
/// entries.
pub proof fn lemma_server_entries_miss(server: String, tools: Seq<McpTool>, name: Seq<char>)
    requires
        forall|i: int| 0 <= i < tools.len() ==> (#[trigger] tools[i]).name@ != name,
    ensures
        spec_lookup(spec_server_entries(server, tools), name) is None,
    decreases tools.len(),
{
    if tools.len() > 0 {
        let e = spec_server_entries(server, tools);
        assert(e.drop_last() =~= spec_server_entries(server, tools.drop_last()));
        assert(tools[tools.len() - 1].name@ != name);
        lemma_server_entries_miss(server, tools.drop_last(), name);
    }
}

/// Each tool of a catalog rendered in the provider's schema shape, in
/// catalog order.
pub open spec fn spec_provider_tools(ts: Seq<McpTool>) -> Seq<Seq<u8>>
    decreases ts.len(),
{
    if ts.len() == 0 {
        Seq::empty()
    } else {
        spec_provider_tools(ts.drop_last()).push(crate::tools::spec_provider_tool(ts.last()))
    }
}

/// The catalog manager's routing core: the flattened tool catalog and the
/// name-to-owner table, rebuilt wholesale on each refresh.
pub struct ToolCatalog {
    all_tools: Vec<McpTool>,
    routes: Vec<(String, String)>,
}

impl ToolCatalog {
    /// The flattened tool catalog.
    pub closed spec fn tools(&self) -> Seq<McpTool> {
        self.all_tools@
    }

    /// The routing entries, in registration order.
    pub closed spec fn entries(&self) -> Seq<(String, String)> {
        self.routes@
    }

    /// An empty catalog: nothing discovered yet.
    pub fn new() -> (r: ToolCatalog)
        ensures
            r.tools() == Seq::<McpTool>::empty(),
            r.entries() == Seq::<(String, String)>::empty(),
    {
        ToolCatalog { all_tools: Vec::new(), routes: Vec::new() }
    }

    /// Rebuilds both structures together from every server's discovery
    /// result: the flattened catalog and the routing table, a failing
    /// server simply contributing no entries. The previous contents are
    /// discarded wholesale.
    pub fn refresh_tools(&mut self, results: Vec<(String, Option<Vec<McpTool>>)>)
        ensures
            final(self).tools() == spec_flat_tools(results@),
            final(self).entries() == spec_route_entries(results@),
    {
        let ghost rs = results@;
        let mut all_tools: Vec<McpTool> = Vec::new();
        let mut routes: Vec<(String, String)> = Vec::new();
        let mut results = results;
        let mut k: usize = 0;
        proof {
            assert(rs.subrange(0, 0) =~= Seq::<(String, Option<Vec<McpTool>>)>::empty());
            assert(all_tools@ =~= spec_flat_tools(rs.subrange(0, 0)));
            assert(routes@ =~= spec_route_entries(rs.subrange(0, 0)));
        }
        let n = results.len();
        while k < n
            invariant
                n == rs.len(),
                k <= n,
                results@ == rs.skip(k as int),
                all_tools@ == spec_flat_tools(rs.subrange(0, k as int)),
                routes@ == spec_route_entries(rs.subrange(0, k as int)),
            decreases n - k,
        {
            proof {
                assert(rs.subrange(0, k + 1).drop_last() =~= rs.subrange(0, k as int));
                assert(rs.subrange(0, k + 1).last() == rs[k as int]);
                assert(rs.skip(k as int)[0] == rs[k as int]);
            }
            let (server, outcome) = results.remove(0);
            proof {
                assert(results@ =~= rs.skip(k + 1));
            }
            match outcome {
                Some(mut ts) => {
                    let ghost tools_in = ts@;
                    let mut j: usize = 0;
                    let m = ts.len();
                    let ghost base_routes = routes@;
                    proof {
                        assert(tools_in.subrange(0, 0) =~= Seq::<McpTool>::empty());
                        assert(spec_server_entries(server, tools_in.subrange(0, 0))
                            =~= Seq::<(String, String)>::empty());
                        assert(base_routes + spec_server_entries(
                            server,
                            tools_in.subrange(0, 0),
                        ) =~= base_routes);
                    }
                    while j < m
                        invariant
                            m == tools_in.len(),
                            j <= m,
                            ts@ == tools_in.skip(j as int),
                            routes@ == base_routes + spec_server_entries(
                                server,
                                tools_in.subrange(0, j as int),
                            ),
                            all_tools@ + ts@ == spec_flat_tools(rs.subrange(0, k as int))
                                + tools_in,
                        decreases m - j,
                    {
                        proof {
                            assert(tools_in.subrange(0, j + 1).drop_last() =~= tools_in.subrange(
                                0,
                                j as int,
                            ));
                            assert(tools_in.subrange(0, j + 1).last() == tools_in[j as int]);
                            assert(ts@[0] == tools_in[j as int]);
                        }
                        let tool = ts.remove(0);
                        proof {
                            assert(ts@ =~= tools_in.skip(j + 1));
                        }
                        routes.push((tool.name.clone(), server.clone()));
                        all_tools.push(tool);
                        proof {
                            assert(routes@ =~= base_routes + spec_server_entries(
                                server,
                                tools_in.subrange(0, j + 1),
                            ));
                            assert(all_tools@ + ts@ =~= spec_flat_tools(rs.subrange(0, k as int))
                                + tools_in);
                        }
                        j += 1;
                    }
                    proof {
                        assert(tools_in.subrange(0, tools_in.len() as int) =~= tools_in);
                        assert(ts@ =~= Seq::<McpTool>::empty());
                        assert(all_tools@ + ts@ =~= all_tools@);
                        assert(rs[k as int].1 matches Some(v) && v@ == tools_in);
                        assert(all_tools@ =~= spec_flat_tools(rs.subrange(0, k + 1)));
                        assert(routes@ =~= spec_route_entries(rs.subrange(0, k + 1)));
                    }
                },
                None => {
                    proof {
                        assert(all_tools@ + Seq::<McpTool>::empty() =~= all_tools@);
                        assert(routes@ + Seq::<(String, String)>::empty() =~= routes@);
                        assert(all_tools@ =~= spec_flat_tools(rs.subrange(0, k + 1)));
                        assert(routes@ =~= spec_route_entries(rs.subrange(0, k + 1)));
                    }
                },
            }
            k += 1;
        }
        proof {
            assert(rs.subrange(0, rs.len() as int) =~= rs);
        }
        self.all_tools = all_tools;
        self.routes = routes;
    }

    /// Every discovered tool, in catalog order.
    pub fn get_all_tools(&self) -> (r: &Vec<McpTool>)
        ensures
            r@ == self.tools(),
    {
        &self.all_tools
    }

    /// Whether any tool is available at all.
    pub fn has_tools(&self) -> (r: bool)
        ensures
            r == (self.tools().len() > 0),
    {
        self.all_tools.len() > 0
    }

    /// The whole catalog in the provider's schema shape, one JSON
    /// rendering per tool, without mutating the catalog itself.
    pub fn get_openai_tools(&self) -> (r: Vec<Vec<u8>>)
        ensures
            r.deep_view() == spec_provider_tools(self.tools()),
    {
        let ghost ts = self.all_tools@;
        let mut out: Vec<Vec<u8>> = Vec::new();
        let mut k: usize = 0;
        proof {
            assert(ts.subrange(0, 0) =~= Seq::<McpTool>::empty());
            assert(out.deep_view() =~~= spec_provider_tools(ts.subrange(0, 0)));
        }
        while k < self.all_tools.len()
            invariant
                ts == self.all_tools@,
                k <= ts.len(),
                out.deep_view() == spec_provider_tools(ts.subrange(0, k as int)),
            decreases ts.len() - k,
        {
            proof {
                assert(ts.subrange(0, k + 1).drop_last() =~= ts.subrange(0, k as int));
                assert(ts.subrange(0, k + 1).last() == ts[k as int]);
            }
            let ghost old_dv = out.deep_view();
            let rendered = crate::tools::provider_tool_json(&self.all_tools[k]);
            let ghost rv = rendered@;
            out.push(rendered);
            proof {
                assert(out.deep_view() =~~= old_dv.push(rv));
                assert(out.deep_view() =~= spec_provider_tools(ts.subrange(0, k + 1)));
            }
            k += 1;
        }
        proof {
            assert(ts.subrange(0, ts.len() as int) =~= ts);
        }
        out
    }

    /// The server that owns a tool name, the last registration winning.
    pub fn route_of(&self, tool_name: &str) -> (r: Option<&String>)
        ensures
            match r {
                Some(srv) => spec_lookup(self.entries(), tool_name@) == Some(*srv),
                None => spec_lookup(self.entries(), tool_name@) is None,
            },
    {
        let n = self.routes.len();
        let mut k: usize = n;
        proof {
            assert(self.routes@.subrange(0, n as int) =~= self.routes@);
        }
        while k > 0
            invariant
                n == self.routes@.len(),
                k <= n,
                spec_lookup(self.entries(), tool_name@) == spec_lookup(
                    self.routes@.subrange(0, k as int),
                    tool_name@,
                ),
        decreases k,
        {
            proof {
                assert(self.routes@.subrange(0, k as int).drop_last() =~= self.routes@.subrange(
                    0,
                    k - 1,
                ));
                assert(self.routes@.subrange(0, k as int).last() == self.routes@[k - 1]);
            }
            if crate::text::str_eq(self.routes[k - 1].0.as_str(), tool_name) {
                return Some(&self.routes[k - 1].1);
            }
            k -= 1;
        }
        None
    }

    /// Decides where a call goes, before any server is contacted: the
    /// owning server of the name, or `NotFound` naming the tool when no
    /// server owns it — and then nothing is sent anywhere.
    pub fn route_call(&self, tool_name: &str) -> (r: Result<String, McpError>)
        ensures
            match r {
                Ok(srv) => spec_lookup(self.entries(), tool_name@) == Some(srv),
                Err(e) => spec_lookup(self.entries(), tool_name@) is None && (e
                    matches McpError::NotFound(n) && n@ == tool_name@),
            },
    {
        match self.route_of(tool_name) {
            Some(srv) => Ok(srv.clone()),
            None => Err(McpError::NotFound(tool_name.to_owned())),
        }
    }
}

/// When one server's discovery starts failing, a refresh removes only that
/// server's tools: a name that none of the failing server's tools bore
/// routes exactly as before, and a name that only the failing server
/// offered is gone.
pub proof fn lemma_refresh_isolates_failure(
    before: Seq<(String, Option<Vec<McpTool>>)>,
    after: Seq<(String, Option<Vec<McpTool>>)>,
    k: int,
    name: Seq<char>,
)
    requires
        0 <= k < before.len(),
        after.len() == before.len(),
        forall|i: int| 0 <= i < before.len() && i != k ==> after[i] == #[trigger] before[i],
        after[k].0 == before[k].0,
        after[k].1 is None,
        before[k].1 matches Some(ts) && (forall|i: int|
            0 <= i < ts@.len() ==> (#[trigger] ts@[i]).name@ != name),
    ensures
        spec_lookup(spec_route_entries(after), name) == spec_lookup(
            spec_route_entries(before),
            name,
        ),
    decreases before.len(),
{
    let n = before.len();
    if k == n - 1 {
        assert(before.drop_last() =~= after.drop_last());
        let ts = before[k].1->Some_0;
        lemma_server_entries_miss(before[k].0, ts@, name);
        lemma_lookup_append(
            spec_route_entries(before.drop_last()),
            spec_server_entries(before[k].0, ts@),
            name,
        );
        assert(spec_route_entries(after) =~= spec_route_entries(after.drop_last())
            + Seq::<(String, String)>::empty());
    } else {
        assert(before.last() == after.last());
        lemma_refresh_isolates_failure(before.drop_last(), after.drop_last(), k, name);
        let tailb = match before.last().1 {
            Some(ts) => spec_server_entries(before.last().0, ts@),
            None => Seq::<(String, String)>::empty(),
        };
        lemma_lookup_append(spec_route_entries(before.drop_last()), tailb, name);
        lemma_lookup_append(spec_route_entries(after.drop_last()), tailb, name);
    }
}

} // verus!
