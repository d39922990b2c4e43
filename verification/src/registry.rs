//! The registry of loaded tools.
use vstd::prelude::*;

use crate::json::{items_view, Json, JsonView};
use crate::manifest::{schema_tool, tools_view, InvokeConfig, InvokeView, Manifest, Tool, ToolView};
use crate::text::{
    lemma_text_lt_asymmetric, lemma_text_lt_irreflexive, lemma_text_lt_transitive, relate, same, text_lt, Relation,
};

verus! {

/// A tool with the place it came from: the stem of a manifest file, or the
/// name of a group of built-in tools.
pub struct LoadedTool {
    pub tool: Tool,
    pub source: String,
    /// Callable, but left out of `tools/list`.
    pub hidden: bool,
}

/// The model of [`LoadedTool`].
pub struct LoadedView {
    pub tool: ToolView,
    pub source: Seq<char>,
    pub hidden: bool,
}

impl View for LoadedTool {
    type V = LoadedView;

    open spec fn view(&self) -> LoadedView {
        LoadedView { tool: self.tool@, source: self.source@, hidden: self.hidden }
    }
}

impl Clone for LoadedTool {
    fn clone(&self) -> (r: LoadedTool)
        ensures
            r@ == self@,
    {
        LoadedTool { tool: self.tool.clone(), source: self.source.clone(), hidden: self.hidden }
    }
}

/// The models of a list of tools.
pub open spec fn loaded_view(v: Seq<LoadedTool>) -> Seq<LoadedView> {
    Seq::new(v.len(), |i: int| v[i]@)
}

/// The names rise.
pub open spec fn by_name(v: Seq<LoadedView>) -> bool {
    forall|i: int, j: int|
        0 <= i < j < v.len() ==> text_lt((#[trigger] v[i]).tool.name, (#[trigger] v[j]).tool.name)
}

/// Tool `i` is called `name`.
pub open spec fn named(v: Seq<LoadedView>, name: Seq<char>, i: int) -> bool {
    0 <= i < v.len() && v[i].tool.name == name
}

/// The tools by their names.
pub open spec fn tool_map(v: Seq<LoadedView>) -> Map<Seq<char>, LoadedView> {
    Map::new(
        |name: Seq<char>| exists|i: int| named(v, name, i),
        |name: Seq<char>| v[choose|i: int| named(v, name, i)],
    )
}

proof fn lemma_named(v: Seq<LoadedView>, i: int)
    requires
        by_name(v),
        0 <= i < v.len(),
    ensures
        tool_map(v).contains_key(v[i].tool.name),
        tool_map(v)[v[i].tool.name] == v[i],
{
    let name = v[i].tool.name;
    assert(named(v, name, i));
    let j = choose|j: int| named(v, name, j);
    lemma_text_lt_irreflexive(name);
    if i < j {
        assert(text_lt(v[i].tool.name, v[j].tool.name));
    } else if j < i {
        assert(text_lt(v[j].tool.name, v[i].tool.name));
    }
}

/// All loaded tools, by name.
pub struct ManifestRegistry {
    tools: Vec<LoadedTool>,
}

impl View for ManifestRegistry {
    type V = Map<Seq<char>, LoadedView>;

    closed spec fn view(&self) -> Map<Seq<char>, LoadedView> {
        tool_map(loaded_view(self.tools@))
    }
}

/// The tools with `tools` from `source` added, one after the other.
pub open spec fn with_tools(m: Map<Seq<char>, LoadedView>, tools: Seq<ToolView>, source: Seq<char>) -> Map<
    Seq<char>,
    LoadedView,
>
    decreases tools.len(),
{
    if tools.len() == 0 {
        m
    } else {
        with_tools(m, tools.drop_last(), source).insert(
            tools.last().name,
            LoadedView { tool: tools.last(), source, hidden: false },
        )
    }
}

/// The tools that a server lists: each is called through the server `key`.
pub open spec fn server_tools(listed: Seq<JsonView>, key: Seq<char>) -> Seq<ToolView>
    decreases listed.len(),
{
    if listed.len() == 0 {
        Seq::empty()
    } else {
        let before = server_tools(listed.drop_last(), key);
        match schema_tool(listed.last()) {
            Some(t) => before.push(ToolView { invoke: InvokeView::Mcp { server_key: key }, ..t }),
            None => before,
        }
    }
}

/// The tools that did not come from `source`.
pub open spec fn without_source(m: Map<Seq<char>, LoadedView>, source: Seq<char>) -> Map<Seq<char>, LoadedView> {
    m.restrict(Set::new(|name: Seq<char>| m[name].source != source))
}

/// What happened to a manifest file.
pub enum FileChange {
    /// It was created or changed; its contents, if they could be read.
    Written(Option<Manifest>),
    Removed,
    Other,
}

/// The tools after a manifest file has changed.  The old version is unloaded
/// first so that renamed tools do not linger; a file that cannot be read
/// changes nothing.
pub open spec fn after_change(m: Map<Seq<char>, LoadedView>, stem: Seq<char>, change: FileChange) -> Map<
    Seq<char>,
    LoadedView,
> {
    match change {
        FileChange::Written(Some(manifest)) => with_tools(without_source(m, stem), manifest@.tools, stem),
        FileChange::Written(None) => m,
        FileChange::Removed => without_source(m, stem),
        FileChange::Other => m,
    }
}

impl ManifestRegistry {
    /// The names rise.
    pub closed spec fn wf(&self) -> bool {
        by_name(loaded_view(self.tools@))
    }

    /// How many tools there are.
    pub open spec fn count(&self) -> nat {
        self.listed().len()
    }

    /// The tools in the order of their names.
    pub closed spec fn listed(&self) -> Seq<LoadedView> {
        loaded_view(self.tools@)
    }

    /// A registry without tools.
    pub fn new() -> (r: ManifestRegistry)
        ensures
            r.wf(),
            r@ == Map::<Seq<char>, LoadedView>::empty(),
    {
        let r = ManifestRegistry { tools: Vec::new() };
        assert(r@ =~= Map::<Seq<char>, LoadedView>::empty());
        r
    }

    /// Where the tool called `name` stands, or would stand.
    fn position(&self, name: &str) -> (r: (usize, bool))
        requires
            self.wf(),
        ensures
            r.0 <= self.tools@.len(),
            forall|i: int| 0 <= i < r.0 ==> text_lt((#[trigger] loaded_view(self.tools@)[i]).tool.name, name@),
            r.1 ==> named(loaded_view(self.tools@), name@, r.0 as int),
            !r.1 ==> forall|i: int|
                r.0 <= i < self.tools@.len() ==> text_lt(name@, (#[trigger] loaded_view(self.tools@)[i]).tool.name),
            r.1 == self@.contains_key(name@),
    {
        let ghost v = loaded_view(self.tools@);
        let mut i: usize = 0;
        while i < self.tools.len()
            invariant
                self.wf(),
                v == loaded_view(self.tools@),
                i <= self.tools@.len(),
                forall|j: int| 0 <= j < i ==> text_lt((#[trigger] v[j]).tool.name, name@),
            decreases self.tools@.len() - i,
        {
            assert(v[i as int].tool.name == self.tools@[i as int].tool.name@);
            match relate(self.tools[i].tool.name.as_str(), name) {
                Relation::Before => {},
                Relation::Same => {
                    assert(named(v, name@, i as int));
                    return (i, true);
                },
                Relation::After => {
                    proof {
                        assert forall|j: int| i <= j < self.tools@.len() implies text_lt(
                            name@,
                            (#[trigger] v[j]).tool.name,
                        ) by {
                            if i < j {
                                lemma_text_lt_transitive(name@, v[i as int].tool.name, v[j].tool.name);
                            }
                        }
                        lemma_absent(v, name@, i as int);
                    }
                    return (i, false);
                },
            }
            i += 1;
        }
        proof {
            lemma_absent(v, name@, i as int);
        }
        (i, false)
    }

    /// Adds a tool, in place of the one with its name if there is one.
    pub fn register_builtin(&mut self, tool: Tool, source: &str)
        requires
            old(self).wf(),
        ensures
            final(self).wf(),
            final(self)@ == old(self)@.insert(
                tool@.name,
                (LoadedView { tool: tool@, source: source@, hidden: false }),
            ),
    {
        self.register_builtin_hidden(tool, source, false);
    }

    /// Adds a tool, in place of the one with its name if there is one; a
    /// hidden one is left out of `tools/list`.
    pub fn register_builtin_hidden(&mut self, tool: Tool, source: &str, hidden: bool)
        requires
            old(self).wf(),
        ensures
            final(self).wf(),
            final(self)@ == old(self)@.insert(tool@.name, (LoadedView { tool: tool@, source: source@, hidden })),
    {
        let ghost before = loaded_view(self.tools@);
        let (i, found) = self.position(tool.name.as_str());
        let entry = LoadedTool { tool, source: source.to_owned(), hidden };
        let ghost e = entry@;
        if found {
            self.tools.set(i, entry);
            proof {
                let after = loaded_view(self.tools@);
                assert(after =~= before.update(i as int, e));
                assert forall|a: int, b: int| 0 <= a < b < after.len() implies text_lt(
                    (#[trigger] after[a]).tool.name,
                    (#[trigger] after[b]).tool.name,
                ) by {
                    assert(text_lt(before[a].tool.name, before[b].tool.name));
                }
                assert forall|n: Seq<char>| tool_map(after).contains_key(n) == tool_map(before).insert(
                    e.tool.name,
                    e,
                ).contains_key(n) by {
                    if tool_map(after).contains_key(n) {
                        let j = choose|j: int| named(after, n, j);
                        assert(named(before, n, j));
                    }
                    if tool_map(before).contains_key(n) {
                        let j = choose|j: int| named(before, n, j);
                        assert(named(after, n, j));
                    }
                    lemma_named(after, i as int);
                }
                assert forall|n: Seq<char>| tool_map(after).contains_key(n) implies tool_map(after)[n] == tool_map(
                    before,
                ).insert(e.tool.name, e)[n] by {
                    let j = choose|j: int| named(after, n, j);
                    lemma_named(after, j);
                    if n != e.tool.name {
                        lemma_named(before, j);
                    } else {
                        lemma_named(after, i as int);
                    }
                }
                assert(tool_map(after) =~= tool_map(before).insert(e.tool.name, e));
            }
        } else {
            self.tools.insert(i, entry);
            proof {
                let after = loaded_view(self.tools@);
                assert(after =~= before.insert(i as int, e));
                assert forall|a: int, b: int| 0 <= a < b < after.len() implies text_lt(
                    (#[trigger] after[a]).tool.name,
                    (#[trigger] after[b]).tool.name,
                ) by {
                    let pa = if a < i { a } else { a - 1 };
                    let pb = if b < i { b } else { b - 1 };
                    if a != i && b != i {
                        assert(text_lt(before[pa].tool.name, before[pb].tool.name));
                    } else if a == i {
                        assert(after[b] == before[pb]);
                    } else {
                        assert(after[a] == before[pa]);
                    }
                }
                lemma_named(after, i as int);
                assert forall|n: Seq<char>| tool_map(after).contains_key(n) == tool_map(before).insert(
                    e.tool.name,
                    e,
                ).contains_key(n) by {
                    if tool_map(after).contains_key(n) && n != e.tool.name {
                        let j = choose|j: int| named(after, n, j);
                        let p = if j < i { j } else { j - 1 };
                        assert(named(before, n, p));
                    }
                    if tool_map(before).contains_key(n) {
                        let j = choose|j: int| named(before, n, j);
                        let p = if j < i { j } else { j + 1 };
                        assert(named(after, n, p));
                    }
                }
                assert forall|n: Seq<char>| tool_map(after).contains_key(n) implies tool_map(after)[n] == tool_map(
                    before,
                ).insert(e.tool.name, e)[n] by {
                    let j = choose|j: int| named(after, n, j);
                    lemma_named(after, j);
                    if n != e.tool.name {
                        let p = if j < i { j } else { j - 1 };
                        lemma_named(before, p);
                    }
                }
                assert(tool_map(after) =~= tool_map(before).insert(e.tool.name, e));
            }
        }
    }

    /// Adds all tools of a manifest.
    pub fn load_manifest(&mut self, manifest: &Manifest, source: &str)
        requires
            old(self).wf(),
        ensures
            final(self).wf(),
            final(self)@ == with_tools(old(self)@, manifest@.tools, source@),
    {
        let ghost start = self@;
        let ghost all = tools_view(manifest.tools@);
        let mut i: usize = 0;
        assert(all.take(0) =~= Seq::empty());
        while i < manifest.tools.len()
            invariant
                self.wf(),
                i <= manifest.tools@.len(),
                all == tools_view(manifest.tools@),
                self@ == with_tools(start, all.take(i as int), source@),
            decreases manifest.tools@.len() - i,
        {
            assert(all.take(i + 1).drop_last() =~= all.take(i as int));
            assert(all.take(i + 1).last() == manifest.tools@[i as int]@);
            self.register_builtin(manifest.tools[i].clone(), source);
            i += 1;
        }
        assert(all.take(i as int) =~= all);
    }

    /// Adds the tools that a server lists, as tools from the manifest `key`.
    /// What is no tool definition is passed over.
    pub fn register_server_tools(&mut self, listed: &Vec<Json>, key: &str)
        requires
            old(self).wf(),
        ensures
            final(self).wf(),
            final(self)@ == with_tools(old(self)@, server_tools(items_view(listed@), key@), key@),
    {
        let ghost start = self@;
        let ghost all = items_view(listed@);
        let mut i: usize = 0;
        assert(all.take(0) =~= Seq::empty());
        while i < listed.len()
            invariant
                self.wf(),
                i <= listed@.len(),
                all == items_view(listed@),
                self@ == with_tools(start, server_tools(all.take(i as int), key@), key@),
            decreases listed@.len() - i,
        {
            assert(all.take(i + 1).drop_last() =~= all.take(i as int));
            assert(all.take(i + 1).last() == listed@[i as int]@);
            let ghost before = server_tools(all.take(i as int), key@);
            match Tool::from_json_schema(&listed[i]) {
                Some(found) => {
                    let mut tool = found;
                    tool.invoke = InvokeConfig::Mcp { server_key: key.to_owned() };
                    let ghost after = before.push(tool@);
                    assert(after.drop_last() =~= before);
                    assert(after == server_tools(all.take(i + 1), key@));
                    self.register_builtin(tool, key);
                },
                None => {},
            }
            i += 1;
        }
        assert(all.take(i as int) =~= all);
    }

    /// Removes all tools that came from `source`.
    pub fn unload_source(&mut self, source: &str)
        requires
            old(self).wf(),
        ensures
            final(self).wf(),
            final(self)@ == without_source(old(self)@, source@),
    {
        let ghost before = loaded_view(self.tools@);
        let mut kept: Vec<LoadedTool> = Vec::new();
        let ghost mut from: Seq<int> = Seq::empty();
        let mut i: usize = 0;
        while i < self.tools.len()
            invariant
                *self == *old(self),
                self.wf(),
                before == loaded_view(self.tools@),
                i <= self.tools@.len(),
                kept@.len() == from.len(),
                forall|p: int|
                    0 <= p < from.len() ==> 0 <= #[trigger] from[p] < i && loaded_view(kept@)[p] == before[from[p]]
                        && before[from[p]].source != source@,
                forall|p: int, q: int| 0 <= p < q < from.len() ==> #[trigger] from[p] < #[trigger] from[q],
                forall|j: int| 0 <= j < i && (#[trigger] before[j]).source != source@ ==> from.contains(j),
            decreases self.tools@.len() - i,
        {
            assert(before[i as int].source == self.tools@[i as int].source@);
            if !same(self.tools[i].source.as_str(), source) {
                let ghost was = from;
                let ghost old_kept = loaded_view(kept@);
                kept.push(self.tools[i].clone());
                proof {
                    from = from.push(i as int);
                    assert(loaded_view(kept@) =~= old_kept.push(before[i as int]));
                    assert forall|j: int| 0 <= j < i + 1 && (#[trigger] before[j]).source != source@ implies from.contains(
                        j,
                    ) by {
                        if j == i {
                            assert(from[was.len() as int] == j);
                        } else {
                            assert(was.contains(j));
                            let p = choose|p: int| 0 <= p < was.len() && was[p] == j;
                            assert(from[p] == j);
                        }
                    }
                }
            }
            i += 1;
        }
        self.tools = kept;
        proof {
            let after = loaded_view(self.tools@);
            assert forall|a: int, b: int| 0 <= a < b < after.len() implies text_lt(
                (#[trigger] after[a]).tool.name,
                (#[trigger] after[b]).tool.name,
            ) by {
                assert(from[a] < from[b]);
                assert(text_lt(before[from[a]].tool.name, before[from[b]].tool.name));
            }
            let want = without_source(tool_map(before), source@);
            assert forall|n: Seq<char>| tool_map(after).contains_key(n) == want.contains_key(n) by {
                if tool_map(after).contains_key(n) {
                    let p = choose|p: int| named(after, n, p);
                    assert(named(before, n, from[p]));
                    lemma_named(before, from[p]);
                }
                if want.contains_key(n) {
                    let j = choose|j: int| named(before, n, j);
                    lemma_named(before, j);
                    assert(before[j].source != source@);
                    assert(from.contains(j));
                    let p = choose|p: int| 0 <= p < from.len() && from[p] == j;
                    assert(named(after, n, p));
                }
            }
            assert forall|n: Seq<char>| tool_map(after).contains_key(n) implies tool_map(after)[n] == want[n] by {
                let p = choose|p: int| named(after, n, p);
                lemma_named(after, p);
                lemma_named(before, from[p]);
            }
            assert(tool_map(after) =~= want);
        }
    }

    /// Follows a change of the manifest file with this stem.
    pub fn handle_event(&mut self, stem: &str, change: &FileChange)
        requires
            old(self).wf(),
        ensures
            final(self).wf(),
            final(self)@ == after_change(old(self)@, stem@, *change),
    {
        match change {
            FileChange::Written(Some(manifest)) => {
                self.unload_source(stem);
                self.load_manifest(manifest, stem);
            },
            FileChange::Removed => {
                self.unload_source(stem);
            },
            _ => {},
        }
    }

    /// All tools, by name.
    pub fn all(&self) -> (r: Vec<LoadedTool>)
        requires
            self.wf(),
        ensures
            loaded_view(r@) == self.listed(),
            by_name(self.listed()),
            tool_map(self.listed()) == self@,
    {
        let mut out: Vec<LoadedTool> = Vec::new();
        let mut i: usize = 0;
        while i < self.tools.len()
            invariant
                i <= self.tools@.len(),
                out@.len() == i,
                forall|j: int| 0 <= j < i ==> (#[trigger] out@[j])@ == self.tools@[j]@,
            decreases self.tools@.len() - i,
        {
            out.push(self.tools[i].clone());
            i += 1;
        }
        assert(loaded_view(out@) =~= loaded_view(self.tools@));
        out
    }

    /// The tool called `name`.
    pub fn get(&self, name: &str) -> (r: Option<&LoadedTool>)
        requires
            self.wf(),
        ensures
            match r {
                Some(t) => self@.contains_key(name@) && t@ == self@[name@],
                None => !self@.contains_key(name@),
            },
    {
        let (i, found) = self.position(name);
        if found {
            proof {
                lemma_named(loaded_view(self.tools@), i as int);
            }
            Some(&self.tools[i])
        } else {
            None
        }
    }

    /// How many tools there are.
    pub fn tool_count(&self) -> (r: usize)
        ensures
            r == self.count(),
    {
        self.tools.len()
    }
}

proof fn lemma_absent(v: Seq<LoadedView>, name: Seq<char>, i: int)
    requires
        0 <= i <= v.len(),
        forall|j: int| 0 <= j < i ==> text_lt((#[trigger] v[j]).tool.name, name),
        forall|j: int| i <= j < v.len() ==> text_lt(name, (#[trigger] v[j]).tool.name),
    ensures
        !tool_map(v).contains_key(name),
{
    lemma_text_lt_irreflexive(name);
    if exists|j: int| named(v, name, j) {
        let j = choose|j: int| named(v, name, j);
        assert(v[j].tool.name == name);
    }
}

/// After a manifest file is removed, no tool that it declared is left, and
/// every other tool is as it was.
pub proof fn law_removed_source_is_gone(m: Map<Seq<char>, LoadedView>, source: Seq<char>, name: Seq<char>)
    ensures
        without_source(m, source).contains_key(name) <==> m.contains_key(name) && m[name].source != source,
        without_source(m, source).contains_key(name) ==> without_source(m, source)[name] == m[name],
{
}

/// After a manifest is loaded, every tool that it declares is there; another
/// tool is as it was.
pub proof fn law_loaded_tools_are_there(m: Map<Seq<char>, LoadedView>, tools: Seq<ToolView>, source: Seq<char>, name: Seq<char>)
    ensures
        (exists|i: int| 0 <= i < tools.len() && (#[trigger] tools[i]).name == name) ==> with_tools(
            m,
            tools,
            source,
        ).contains_key(name) && with_tools(m, tools, source)[name].source == source,
        !(exists|i: int| 0 <= i < tools.len() && (#[trigger] tools[i]).name == name) ==> (with_tools(
            m,
            tools,
            source,
        ).contains_key(name) <==> m.contains_key(name)) && with_tools(m, tools, source)[name] == m[name],
    decreases tools.len(),
{
    if tools.len() > 0 {
        let before = tools.drop_last();
        law_loaded_tools_are_there(m, before, source, name);
        if exists|i: int| 0 <= i < before.len() && (#[trigger] before[i]).name == name {
            let i = choose|i: int| 0 <= i < before.len() && (#[trigger] before[i]).name == name;
            assert(tools[i].name == name);
        }
        if tools.last().name == name {
            assert(tools[tools.len() - 1].name == name);
        } else if exists|i: int| 0 <= i < tools.len() && (#[trigger] tools[i]).name == name {
            let i = choose|i: int| 0 <= i < tools.len() && (#[trigger] tools[i]).name == name;
            assert(before[i].name == name);
        }
    }
}

proof fn lemma_last_name(v: Seq<LoadedView>, name: Seq<char>)
    requires
        by_name(v),
        v.len() > 0,
        tool_map(v).contains_key(name),
    ensures
        name == v.last().tool.name || text_lt(name, v.last().tool.name),
{
    let j = choose|j: int| named(v, name, j);
    if j < v.len() - 1 {
        assert(text_lt(v[j].tool.name, v[v.len() - 1].tool.name));
    }
}

proof fn lemma_without_last(v: Seq<LoadedView>)
    requires
        by_name(v),
        v.len() > 0,
    ensures
        by_name(v.drop_last()),
        tool_map(v.drop_last()) == tool_map(v).remove(v.last().tool.name),
{
    let w = v.drop_last();
    assert forall|a: int, b: int| 0 <= a < b < w.len() implies text_lt(
        (#[trigger] w[a]).tool.name,
        (#[trigger] w[b]).tool.name,
    ) by {
        assert(text_lt(v[a].tool.name, v[b].tool.name));
    }
    let last = v.last().tool.name;
    assert forall|n: Seq<char>| tool_map(w).contains_key(n) == tool_map(v).remove(last).contains_key(n) by {
        if tool_map(w).contains_key(n) {
            let j = choose|j: int| named(w, n, j);
            assert(named(v, n, j));
            assert(text_lt(v[j].tool.name, v[v.len() - 1].tool.name));
            lemma_text_lt_irreflexive(n);
        }
        if tool_map(v).remove(last).contains_key(n) {
            let j = choose|j: int| named(v, n, j);
            assert(named(w, n, j));
        }
    }
    assert forall|n: Seq<char>| tool_map(w).contains_key(n) implies tool_map(w)[n] == tool_map(v).remove(last)[n] by {
        let j = choose|j: int| named(w, n, j);
        lemma_named(w, j);
        lemma_named(v, j);
    }
    assert(tool_map(w) =~= tool_map(v).remove(last));
}

/// The tools that are registered determine the list that is shown: two lists
/// in the order of their names with the same tools are the same list.
pub proof fn law_listing_is_determined(a: Seq<LoadedView>, b: Seq<LoadedView>)
    requires
        by_name(a),
        by_name(b),
        tool_map(a) == tool_map(b),
    ensures
        a == b,
    decreases a.len(),
{
    if a.len() == 0 {
        if b.len() > 0 {
            assert(named(b, b[0].tool.name, 0));
            assert(tool_map(a).contains_key(b[0].tool.name));
        }
        assert(a =~= b);
    } else {
        lemma_named(a, a.len() - 1);
        if b.len() == 0 {
            assert(tool_map(b).contains_key(a.last().tool.name));
        }
        lemma_named(b, b.len() - 1);
        lemma_last_name(a, b.last().tool.name);
        lemma_last_name(b, a.last().tool.name);
        if a.last().tool.name != b.last().tool.name {
            lemma_text_lt_asymmetric(a.last().tool.name, b.last().tool.name);
        }
        lemma_without_last(a);
        lemma_without_last(b);
        law_listing_is_determined(a.drop_last(), b.drop_last());
        assert(a =~= a.drop_last().push(a.last()));
        assert(b =~= b.drop_last().push(b.last()));
    }
}

} // verus!
