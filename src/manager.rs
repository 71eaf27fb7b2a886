//! The registry of connected tool providers: which provider owns which tool
//! name, and where a model's function call must go.
use vstd::prelude::*;

use crate::error::BridgeError;
use crate::providers::Function;
use crate::text::{str_eq, text_copy};
use crate::tools::{function_from_tool, MCPTool};

verus! {

/// A registered provider and the names of the tools it offered.
pub struct ServerEntry {
    pub name: String,
    pub tool_names: Vec<String>,
}

/// The texts of some strings.
pub open spec fn texts(v: Seq<String>) -> Seq<Seq<char>> {
    v.map_values(|s: String| s@)
}

/// The names of some tools.
pub open spec fn tool_names_of(tools: Seq<MCPTool>) -> Seq<Seq<char>> {
    tools.map_values(|t: MCPTool| t.name@)
}

/// The names of the registered providers, in order of registration.
pub open spec fn server_names(servers: Seq<ServerEntry>) -> Seq<Seq<char>> {
    servers.map_values(|e: ServerEntry| e.name@)
}

/// The provider that owns `tool`: the most recently registered one that
/// offered it.
pub open spec fn owner_of(servers: Seq<ServerEntry>, tool: Seq<char>) -> Option<Seq<char>>
    decreases servers.len(),
{
    if servers.len() == 0 {
        None
    } else if texts(servers.last().tool_names@).contains(tool) {
        Some(servers.last().name@)
    } else {
        owner_of(servers.drop_last(), tool)
    }
}

/// An owner is always a registered provider.
proof fn lemma_owner_registered(servers: Seq<ServerEntry>, tool: Seq<char>)
    ensures
        owner_of(servers, tool) is Some ==> server_names(servers).contains(owner_of(servers, tool)->0),
    decreases servers.len(),
{
    if servers.len() > 0 {
        lemma_owner_registered(servers.drop_last(), tool);
        let n = servers.len() - 1;
        if texts(servers.last().tool_names@).contains(tool) {
            assert(server_names(servers)[n] == servers.last().name@);
        } else if owner_of(servers.drop_last(), tool) is Some {
            let o = owner_of(servers.drop_last(), tool)->0;
            let k = choose|k: int| 0 <= k < server_names(servers.drop_last()).len() && server_names(servers.drop_last())[k] == o;
            assert(server_names(servers)[k] == o);
        }
    }
}

/// Entry `e` is entry `o` without the tool names in `dropped`.
pub open spec fn narrowed(e: ServerEntry, o: ServerEntry, dropped: Seq<Seq<char>>) -> bool {
    &&& e.name@ == o.name@
    &&& forall|t: Seq<char>| #[trigger] texts(e.tool_names@).contains(t)
        == (texts(o.tool_names@).contains(t) && !dropped.contains(t))
}

/// Entry `e` is some entry of `old` without the tool names in `dropped`.
pub open spec fn narrowed_from(e: ServerEntry, old: Seq<ServerEntry>, dropped: Seq<Seq<char>>) -> bool {
    exists|j: int| 0 <= j < old.len() && #[trigger] narrowed(e, old[j], dropped)
}

/// The names of `list` that are not among `drop`, in order.
fn without_names(list: &Vec<String>, drop: &Vec<String>) -> (r: Vec<String>)
    ensures
        forall|t: Seq<char>| #[trigger] texts(r@).contains(t) == (texts(list@).contains(t) && !texts(drop@).contains(t)),
{
    let mut out: Vec<String> = Vec::new();
    let mut i: usize = 0;
    while i < list.len()
        invariant
            i <= list@.len(),
            forall|t: Seq<char>| #[trigger] texts(out@).contains(t) == (texts(list@.subrange(0, i as int)).contains(t)
                && !texts(drop@).contains(t)),
        decreases list@.len() - i,
    {
        let mut dropped = false;
        let mut j: usize = 0;
        while j < drop.len()
            invariant
                i < list@.len(),
                j <= drop@.len(),
                dropped == exists|x: int| 0 <= x < j && drop@[x]@ == list@[i as int]@,
            decreases drop@.len() - j,
        {
            if str_eq(drop[j].as_str(), list[i].as_str()) {
                dropped = true;
            }
            j = j + 1;
        }
        let ghost prev = out@;
        let ghost item = list@[i as int]@;
        proof {
            assert(dropped == texts(drop@).contains(item)) by {
                if dropped {
                    let x = choose|x: int| 0 <= x < drop@.len() && drop@[x]@ == item;
                    assert(texts(drop@)[x] == item);
                }
                if texts(drop@).contains(item) {
                    let x = choose|x: int| 0 <= x < texts(drop@).len() && texts(drop@)[x] == item;
                    assert(drop@[x]@ == item);
                }
            }
        }
        if !dropped {
            out.push(list[i].clone());
        }
        proof {
            let p = list@.subrange(0, i + 1);
            assert(texts(p) =~= texts(list@.subrange(0, i as int)).push(item));
            if !dropped {
                assert(texts(out@) =~= texts(prev).push(item));
            }
            assert forall|t: Seq<char>| #[trigger] texts(out@).contains(t) == (texts(p).contains(t) && !texts(drop@).contains(t)) by {
                if !dropped {
                    if texts(out@).contains(t) && t != item {
                        let x = choose|x: int| 0 <= x < texts(out@).len() && texts(out@)[x] == t;
                        assert(texts(prev)[x] == t);
                    }
                    if texts(prev).contains(t) {
                        let x = choose|x: int| 0 <= x < texts(prev).len() && texts(prev)[x] == t;
                        assert(texts(out@)[x] == t);
                    }
                    assert(texts(out@)[prev.len() as int] == item);
                }
                if texts(p).contains(t) && t != item {
                    let x = choose|x: int| 0 <= x < texts(p).len() && texts(p)[x] == t;
                    assert(x < i);
                    assert(texts(list@.subrange(0, i as int))[x] == t);
                }
                if texts(list@.subrange(0, i as int)).contains(t) {
                    let x = choose|x: int| 0 <= x < i && texts(list@.subrange(0, i as int))[x] == t;
                    assert(texts(p)[x] == t);
                }
                assert(texts(p)[i as int] == item);
            }
        }
        i = i + 1;
    }
    assert(list@.subrange(0, list@.len() as int) =~= list@);
    out
}

/// The registry of providers.
pub struct MCPManager {
    pub servers: Vec<ServerEntry>,
}

impl MCPManager {
    /// Provider names are unique.
    pub open spec fn wf(&self) -> bool {
        server_names(self.servers@).no_duplicates()
    }

    /// An empty registry.
    pub fn new() -> (r: MCPManager)
        ensures
            r.wf(),
            r.servers@.len() == 0,
    {
        MCPManager { servers: Vec::new() }
    }

    /// Where the provider `name` stands in the registry, if it is there.
    fn position(&self, name: &str) -> (r: Option<usize>)
        ensures
            match r {
                Some(k) => k < self.servers@.len() && self.servers@[k as int].name@ == name@,
                None => !server_names(self.servers@).contains(name@),
            },
    {
        let mut k: usize = 0;
        while k < self.servers.len()
            invariant
                k <= self.servers@.len(),
                forall|j: int| 0 <= j < k ==> self.servers@[j].name@ != name@,
            decreases self.servers@.len() - k,
        {
            if str_eq(self.servers[k].name.as_str(), name) {
                return Some(k);
            }
            k = k + 1;
        }
        proof {
            let ns = server_names(self.servers@);
            assert forall|j: int| 0 <= j < ns.len() implies ns[j] != name@ by {
                assert(ns[j] == self.servers@[j].name@);
            }
        }
        None
    }

    /// Takes the provider `name` out of the registry; whether it was there.
    /// Removing twice is harmless.
    pub fn remove_server(&mut self, name: &str) -> (r: bool)
        requires
            old(self).wf(),
        ensures
            final(self).wf(),
            r == server_names(old(self).servers@).contains(name@),
            !server_names(final(self).servers@).contains(name@),
            forall|n: Seq<char>| n != name@ ==> (server_names(final(self).servers@).contains(n)
                == server_names(old(self).servers@).contains(n)),
            forall|t: Seq<char>| owner_of(final(self).servers@, t) != Some(name@),
            !r ==> final(self).servers@ == old(self).servers@,
            r ==> exists|k: int| 0 <= k < old(self).servers@.len() && old(self).servers@[k].name@ == name@
                && final(self).servers@ == old(self).servers@.remove(k),
            forall|i: int| 0 <= i < final(self).servers@.len() ==> exists|j: int|
                0 <= j < old(self).servers@.len() && #[trigger] final(self).servers@[i] == old(self).servers@[j],
    {
        match self.position(name) {
            None => {
                proof {
                    assert forall|t: Seq<char>| owner_of(self.servers@, t) != Some(name@) by {
                        lemma_owner_registered(self.servers@, t);
                    }
                    assert forall|i: int| 0 <= i < self.servers@.len() implies exists|j: int|
                        0 <= j < self.servers@.len() && #[trigger] self.servers@[i] == self.servers@[j] by {
                        assert(self.servers@[i] == self.servers@[i]);
                    }
                }
                false
            },
            Some(k) => {
                let ghost before = self.servers@;
                self.servers.remove(k);
                proof {
                    let after = self.servers@;
                    assert(after == before.remove(k as int));
                    let nb = server_names(before);
                    let na = server_names(after);
                    assert(nb[k as int] == name@);
                    assert forall|j: int| 0 <= j < na.len() implies na[j] == nb[if j < k { j } else { j + 1 }] by {}
                    assert(na.no_duplicates()) by {
                        assert forall|a: int, b: int| 0 <= a < b < na.len() implies na[a] != na[b] by {
                            let a2 = if a < k { a } else { a + 1 };
                            let b2 = if b < k { b } else { b + 1 };
                            assert(na[a] == nb[a2] && na[b] == nb[b2]);
                        }
                    }
                    assert(!na.contains(name@)) by {
                        if na.contains(name@) {
                            let j = choose|j: int| 0 <= j < na.len() && na[j] == name@;
                            let j2 = if j < k { j } else { j + 1 };
                            assert(na[j] == nb[j2]);
                        }
                    }
                    assert forall|n: Seq<char>| n != name@ implies (na.contains(n) == nb.contains(n)) by {
                        if nb.contains(n) {
                            let j = choose|j: int| 0 <= j < nb.len() && nb[j] == n;
                            assert(j != k);
                            let j1 = if j < k { j } else { j - 1 };
                            assert(na[j1] == nb[j]);
                        }
                        if na.contains(n) {
                            let j = choose|j: int| 0 <= j < na.len() && na[j] == n;
                            let j2 = if j < k { j } else { j + 1 };
                            assert(na[j] == nb[j2]);
                        }
                    }
                    assert forall|t: Seq<char>| owner_of(after, t) != Some(name@) by {
                        lemma_owner_registered(after, t);
                    }
                    assert forall|i: int| 0 <= i < after.len() implies exists|j: int|
                        0 <= j < before.len() && #[trigger] after[i] == before[j] by {
                        if i < k {
                            assert(after[i] == before[i]);
                        } else {
                            assert(after[i] == before[i + 1]);
                        }
                    }
                }
                true
            },
        }
    }

    /// Registers a connected provider with the tools its discovery found.
    /// A failed discovery registers it with no tools: the provider stays
    /// connected and is reported present. A provider registered again under
    /// the same name replaces the earlier one.
    pub fn add_server(&mut self, name: String, discovered: &Result<Vec<MCPTool>, BridgeError>)
        requires
            old(self).wf(),
        ensures
            final(self).wf(),
            server_names(final(self).servers@).contains(name@),
            final(self).servers@.last().name@ == name@,
            texts(final(self).servers@.last().tool_names@) == match discovered {
                Ok(tools) => tool_names_of(tools@),
                Err(_) => Seq::<Seq<char>>::empty(),
            },
            forall|n: Seq<char>| n != name@ ==> (server_names(final(self).servers@).contains(n)
                == server_names(old(self).servers@).contains(n)),
            discovered is Ok ==> forall|i: int| 0 <= i < discovered->Ok_0@.len()
                ==> owner_of(final(self).servers@, #[trigger] discovered->Ok_0@[i].name@) == Some(name@),
            forall|i: int, t: Seq<char>| 0 <= i < final(self).servers@.len() - 1
                && #[trigger] texts(final(self).servers@[i].tool_names@).contains(t)
                ==> !texts(final(self).servers@.last().tool_names@).contains(t),
            forall|i: int| 0 <= i < final(self).servers@.len() - 1 ==> narrowed_from(
                #[trigger] final(self).servers@[i],
                old(self).servers@,
                texts(final(self).servers@.last().tool_names@),
            ),
    {
        self.remove_server(name.as_str());
        let mut names: Vec<String> = Vec::new();
        match discovered {
            Ok(tools) => {
                let mut i: usize = 0;
                while i < tools.len()
                    invariant
                        i <= tools@.len(),
                        texts(names@) == tool_names_of(tools@.subrange(0, i as int)),
                    decreases tools@.len() - i,
                {
                    let ghost prev = names@;
                    let nm = tools[i].name.clone();
                    names.push(nm);
                    proof {
                        let a = texts(names@);
                        let b = tool_names_of(tools@.subrange(0, i + 1));
                        assert(texts(prev).len() == prev.len());
                        assert(tool_names_of(tools@.subrange(0, i as int)).len() == i);
                        assert(prev.len() == i);
                        assert(names@.len() == i + 1);
                        assert(b.len() == i + 1);
                        assert(a.len() == b.len());
                        assert forall|j: int| 0 <= j < a.len() implies a[j] == b[j] by {
                            if j < i {
                                assert(names@[j] == prev[j]);
                                assert(texts(prev)[j] == tool_names_of(tools@.subrange(0, i as int))[j]);
                            } else {
                                assert(names@[j] == nm);
                            }
                        }
                        assert(a =~= b);
                    }
                    i = i + 1;
                }
                assert(tools@.subrange(0, tools@.len() as int) =~= tools@);
            },
            Err(_) => {
                assert(texts(names@) =~= Seq::<Seq<char>>::empty());
            },
        }
        let ghost pre = self.servers@;
        let mut taken: Vec<ServerEntry> = Vec::new();
        taken.append(&mut self.servers);
        let mut rebuilt: Vec<ServerEntry> = Vec::new();
        let mut k: usize = 0;
        while k < taken.len()
            invariant
                taken@ == pre,
                k <= pre.len(),
                rebuilt@.len() == k,
                forall|i: int| 0 <= i < k ==> (#[trigger] rebuilt@[i]).name@ == pre[i].name@,
                forall|i: int, t: Seq<char>| 0 <= i < k ==> (#[trigger] texts(rebuilt@[i].tool_names@).contains(t)
                    == (texts(pre[i].tool_names@).contains(t) && !texts(names@).contains(t))),
            decreases pre.len() - k,
        {
            let e = &taken[k];
            let kept = without_names(&e.tool_names, &names);
            rebuilt.push(ServerEntry { name: e.name.clone(), tool_names: kept });
            k = k + 1;
        }
        self.servers = rebuilt;
        proof {
            assert(server_names(self.servers@) =~= server_names(pre));
        }
        let ghost before = self.servers@;
        self.servers.push(ServerEntry { name, tool_names: names });
        proof {
            let after = self.servers@;
            assert(after.drop_last() =~= before);
            let nb = server_names(before);
            let na = server_names(after);
            assert(na =~= nb.push(after.last().name@));
            assert(na.no_duplicates()) by {
                assert forall|a: int, b: int| 0 <= a < b < na.len() implies na[a] != na[b] by {
                    if b == na.len() - 1 {
                        assert(nb.contains(na[a]));
                    }
                }
            }
            assert(na[na.len() - 1] == after.last().name@);
            assert forall|n: Seq<char>| n != after.last().name@ implies (na.contains(n) == nb.contains(n)) by {
                if na.contains(n) {
                    let j = choose|j: int| 0 <= j < na.len() && na[j] == n;
                    assert(j < nb.len());
                    assert(nb[j] == n);
                }
                if nb.contains(n) {
                    let j = choose|j: int| 0 <= j < nb.len() && nb[j] == n;
                    assert(na[j] == n);
                }
            }
            assert forall|i: int, t: Seq<char>| 0 <= i < after.len() - 1
                && #[trigger] texts(after[i].tool_names@).contains(t)
                implies !texts(after.last().tool_names@).contains(t) by {
                assert(after[i] == before[i]);
            }
            assert forall|i: int| 0 <= i < after.len() - 1 implies narrowed_from(
                #[trigger] after[i],
                old(self).servers@,
                texts(after.last().tool_names@),
            ) by {
                assert(after[i] == before[i]);
                let j = choose|j: int| 0 <= j < old(self).servers@.len() && #[trigger] pre[i] == old(self).servers@[j];
                assert(pre[i] == old(self).servers@[j]);
                assert forall|t: Seq<char>| #[trigger] texts(after[i].tool_names@).contains(t)
                    == (texts(old(self).servers@[j].tool_names@).contains(t)
                    && !texts(after.last().tool_names@).contains(t)) by {
                    assert(texts(before[i].tool_names@).contains(t) == (texts(pre[i].tool_names@).contains(t) && !texts(after.last().tool_names@).contains(t)));
                }
                assert(narrowed(after[i], old(self).servers@[j], texts(after.last().tool_names@)));
            }
            if discovered is Ok {
                let tools = discovered->Ok_0@;
                assert forall|i: int| 0 <= i < tools.len() implies owner_of(after, #[trigger] tools[i].name@)
                    == Some(after.last().name@) by {
                    assert(tool_names_of(tools)[i] == tools[i].name@);
                    assert(texts(after.last().tool_names@).contains(tools[i].name@));
                }
            }
        }
    }

    /// Which providers are registered: each is reported connected.
    pub fn get_server_status(&self) -> (r: Vec<(String, bool)>)
        ensures
            r@.len() == self.servers@.len(),
            forall|i: int| 0 <= i < r@.len() ==> (#[trigger] r@[i]).0@ == self.servers@[i].name@ && r@[i].1,
    {
        let mut out: Vec<(String, bool)> = Vec::new();
        let mut i: usize = 0;
        while i < self.servers.len()
            invariant
                i <= self.servers@.len(),
                out@.len() == i,
                forall|j: int| 0 <= j < i ==> (#[trigger] out@[j]).0@ == self.servers@[j].name@ && out@[j].1,
            decreases self.servers@.len() - i,
        {
            out.push((self.servers[i].name.clone(), true));
            i = i + 1;
        }
        out
    }

    /// The provider that a call of function `name` goes to; an unknown
    /// tool name is an error that carries the name.
    pub fn route_function_call(&self, name: &str) -> (r: Result<String, BridgeError>)
        ensures
            match owner_of(self.servers@, name@) {
                Some(s) => r is Ok && r->Ok_0@ == s,
                None => r is Err && r->Err_0 is UnknownTool && r->Err_0->UnknownTool_0@ == name@,
            },
    {
        let mut k: usize = self.servers.len();
        assert(self.servers@.subrange(0, k as int) =~= self.servers@);
        while k > 0
            invariant
                k <= self.servers@.len(),
                owner_of(self.servers@, name@) == owner_of(self.servers@.subrange(0, k as int), name@),
            decreases k,
        {
            let ghost pre = self.servers@.subrange(0, k as int);
            proof {
                assert(pre.drop_last() =~= self.servers@.subrange(0, k - 1));
                assert(pre.last() == self.servers@[k - 1]);
            }
            let entry = &self.servers[k - 1];
            let mut j: usize = 0;
            while j < entry.tool_names.len()
                invariant
                    0 < k <= self.servers@.len(),
                    pre == self.servers@.subrange(0, k as int),
                    pre.last() == *entry,
                    owner_of(self.servers@, name@) == owner_of(pre, name@),
                    j <= entry.tool_names@.len(),
                    forall|i: int| 0 <= i < j ==> entry.tool_names@[i]@ != name@,
                decreases entry.tool_names@.len() - j,
            {
                if str_eq(entry.tool_names[j].as_str(), name) {
                    proof {
                        assert(texts(entry.tool_names@)[j as int] == name@);
                        assert(owner_of(pre, name@) == Some(entry.name@));
                    }
                    return Ok(entry.name.clone());
                }
                j = j + 1;
            }
            proof {
                let ts = texts(entry.tool_names@);
                assert forall|i: int| 0 <= i < ts.len() implies ts[i] != name@ by {
                    assert(ts[i] == entry.tool_names@[i]@);
                }
            }
            k = k - 1;
        }
        Err(BridgeError::UnknownTool(text_copy(name)))
    }
}

/// The functions that offer some tools to a model, in order.
pub fn functions_from_tools(tools: Vec<MCPTool>) -> (r: Vec<Function>)
    ensures
        r@.len() == tools@.len(),
        forall|i: int| 0 <= i < r@.len() ==> (#[trigger] r@[i]).name@ == tools@[i].name@
            && r@[i].description@ == tools@[i].description@ && r@[i].parameters == tools@[i].input_schema,
{
    let ghost all = tools@;
    let mut tools = tools;
    let mut rev: Vec<Function> = Vec::new();
    while tools.len() > 0
        invariant
            tools@ == all.subrange(0, tools@.len() as int),
            rev@.len() + tools@.len() == all.len(),
            forall|i: int| 0 <= i < rev@.len() ==> (#[trigger] rev@[i]).name@ == all[all.len() - 1 - i].name@
                && rev@[i].description@ == all[all.len() - 1 - i].description@
                && rev@[i].parameters == all[all.len() - 1 - i].input_schema,
        decreases tools@.len(),
    {
        let t = tools.pop().unwrap();
        rev.push(function_from_tool(t));
    }
    let mut out: Vec<Function> = Vec::new();
    while rev.len() > 0
        invariant
            out@.len() + rev@.len() == all.len(),
            forall|i: int| 0 <= i < rev@.len() ==> (#[trigger] rev@[i]).name@ == all[all.len() - 1 - i].name@
                && rev@[i].description@ == all[all.len() - 1 - i].description@
                && rev@[i].parameters == all[all.len() - 1 - i].input_schema,
            forall|i: int| 0 <= i < out@.len() ==> (#[trigger] out@[i]).name@ == all[i].name@
                && out@[i].description@ == all[i].description@ && out@[i].parameters == all[i].input_schema,
        decreases rev@.len(),
    {
        let f = rev.pop().unwrap();
        out.push(f);
    }
    out
}

/// A function offered for a registered provider's tool routes back to that
/// provider: the function keeps the tool's name, and the name's owner is the
/// provider that advertised it last.
pub proof fn lemma_function_routes_to_advertiser(m: MCPManager, tool: MCPTool, f: Function, server: Seq<char>)
    requires
        owner_of(m.servers@, tool.name@) == Some(server),
        f.name@ == tool.name@,
    ensures
        owner_of(m.servers@, f.name@) == Some(server),
{
}

/// The tools of the listings that succeeded, provider by provider.
pub open spec fn listed_tools(results: Seq<Result<Vec<MCPTool>, BridgeError>>) -> Seq<MCPTool>
    decreases results.len(),
{
    if results.len() == 0 {
        seq![]
    } else {
        listed_tools(results.drop_last()) + tools_of_listing(results.last())
    }
}

/// The tools of one listing, when it succeeded.
pub open spec fn tools_of_listing(x: Result<Vec<MCPTool>, BridgeError>) -> Seq<MCPTool> {
    match x {
        Ok(tools) => tools@,
        Err(_) => seq![],
    }
}

/// Listing one more provider in front adds its tools in front.
proof fn lemma_listed_tools_front(x: Result<Vec<MCPTool>, BridgeError>, rest: Seq<Result<Vec<MCPTool>, BridgeError>>)
    ensures
        listed_tools(seq![x] + rest) == tools_of_listing(x) + listed_tools(rest),
    decreases rest.len(),
{
    if rest.len() == 0 {
        assert(seq![x] + rest =~= seq![x]);
        assert(seq![x].drop_last() =~= Seq::<Result<Vec<MCPTool>, BridgeError>>::empty());
        assert(listed_tools(seq![x]) == listed_tools(seq![x].drop_last()) + tools_of_listing(x));
        assert(Seq::<MCPTool>::empty() + tools_of_listing(x) =~= tools_of_listing(x));
        assert(tools_of_listing(x) + Seq::<MCPTool>::empty() =~= tools_of_listing(x));
    } else {
        lemma_listed_tools_front(x, rest.drop_last());
        assert((seq![x] + rest).drop_last() =~= seq![x] + rest.drop_last());
        assert((seq![x] + rest).last() == rest.last());
        let a = tools_of_listing(x);
        let b = listed_tools(rest.drop_last());
        let c = tools_of_listing(rest.last());
        assert(listed_tools(seq![x] + rest) == listed_tools(seq![x] + rest.drop_last()) + c);
        assert(listed_tools(rest) == b + c);
        assert((a + b) + c =~= a + (b + c));
    }
}

/// All tools of all providers: the listings that succeeded, joined in
/// order; a provider whose listing failed contributes none.
pub fn all_tools(results: Vec<Result<Vec<MCPTool>, BridgeError>>) -> (r: Vec<MCPTool>)
    ensures
        r@ == listed_tools(results@),
{
    let ghost all = results@;
    let mut results = results;
    let mut acc: Vec<MCPTool> = Vec::new();
    assert(all.subrange(all.len() as int, all.len() as int).len() == 0);
    while results.len() > 0
        invariant
            results@ == all.subrange(0, results@.len() as int),
            results@.len() <= all.len(),
            acc@ == listed_tools(all.subrange(results@.len() as int, all.len() as int)),
        decreases results@.len(),
    {
        let ghost n = results@.len();
        let x = results.pop().unwrap();
        proof {
            let rest = all.subrange(n as int, all.len() as int);
            assert(all.subrange(n - 1, all.len() as int) =~= seq![x] + rest);
            lemma_listed_tools_front(x, rest);
        }
        let ghost prev = acc@;
        match x {
            Ok(tools) => {
                let mut tools = tools;
                let ghost ts = tools@;
                tools.append(&mut acc);
                acc = tools;

            },
            Err(_) => {
                assert(Seq::<MCPTool>::empty() + prev =~= prev);
            },
        }
    }
    assert(all.subrange(0, all.len() as int) =~= all);
    acc
}

} // verus!
