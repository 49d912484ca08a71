use vstd::prelude::*;

use crate::ids::{draw_id, lemma_probe_escapes, probe};
use crate::tool::{tagged, texts, CreateTool, Tool, ToolView};

verus! {

/// The views of a list of tools.
pub open spec fn views(v: Seq<Tool>) -> Seq<ToolView> {
    v.map_values(|t: Tool| t@)
}

/// The identifiers of a list of tools, in order.
pub open spec fn ids(s: Seq<ToolView>) -> Seq<u128> {
    s.map_values(|v: ToolView| v.id)
}

/// Whether some tool in `s` has identifier `id`.
pub open spec fn has_id(s: Seq<ToolView>, id: u128) -> bool {
    ids(s).contains(id)
}

/// No two tools in `s` share an identifier.
pub open spec fn unique_ids(s: Seq<ToolView>) -> bool {
    forall|i: int, j: int| 0 <= i < j < s.len() ==> s[i].id != s[j].id
}

/// Whether a listing with the optional tag filter `tag` keeps tool `v`.
pub open spec fn selects(tag: Option<Seq<char>>, v: ToolView) -> bool {
    match tag {
        Some(t) => tagged(v, t),
        None => true,
    }
}

/// The tools of `s` that a listing with filter `tag` returns, in registry order.
pub open spec fn listed(s: Seq<ToolView>, tag: Option<Seq<char>>) -> Seq<ToolView> {
    s.filter(|v: ToolView| selects(tag, v))
}

/// The text of an optional tag.
pub open spec fn tag_text(tag: Option<String>) -> Option<Seq<char>> {
    match tag {
        Some(t) => Some(t@),
        None => None,
    }
}

/// Why a removal did not happen.
#[derive(Debug, PartialEq, Eq, Structural)]
pub enum RemoveError {
    /// No tool has the given identifier.
    NotFound,
}

/// The set of tools, keyed by identifier, in order of creation.
pub struct ToolRegistry {
    tools: Vec<Tool>,
}

impl View for ToolRegistry {
    type V = Seq<ToolView>;

    closed spec fn view(&self) -> Seq<ToolView> {
        views(self.tools@)
    }
}

impl ToolRegistry {
    /// Identifiers are unique across the registry.
    pub open spec fn inv(&self) -> bool {
        unique_ids(self@)
    }

    /// An empty registry.
    pub fn new() -> (r: ToolRegistry)
        ensures
            r.inv(),
            r@ == Seq::<ToolView>::empty(),
    {
        let r = ToolRegistry { tools: Vec::new() };
        proof {
            assert(r@ =~= Seq::<ToolView>::empty());
        }
        r
    }

    /// The registry a service starts with: one tool, "Notion".
    pub fn seeded() -> (r: ToolRegistry)
        ensures
            r.inv(),
            r@.len() == 1,
            r@[0].title == "Notion"@,
            r@[0].link == "https://notion.so"@,
            r@[0].description == "All in one tool"@,
            r@[0].tags == seq!["text"@],
    {
        let mut r = ToolRegistry::new();
        let mut tags: Vec<String> = Vec::new();
        tags.push(String::from_str("text"));
        let input = CreateTool {
            title: String::from_str("Notion"),
            link: String::from_str("https://notion.so"),
            description: String::from_str("All in one tool"),
            tags,
        };
        proof {
            assert(texts(input.tags@) =~= seq!["text"@]);
        }
        let _ = r.create_tool(input);
        r
    }

    /// The number of tools.
    pub fn len(&self) -> (r: usize)
        ensures
            r == self@.len(),
    {
        self.tools.len()
    }

    /// Where the tool with identifier `id` stands, if there is one.
    fn position(&self, id: u128) -> (r: Option<usize>)
        ensures
            match r {
                Some(i) => i < self@.len() && self@[i as int].id == id,
                None => !has_id(self@, id),
            },
    {
        let mut i: usize = 0;
        while i < self.tools.len()
            invariant
                i <= self.tools.len(),
                forall|j: int| 0 <= j < i ==> self@[j].id != id,
            decreases self.tools.len() - i,
        {
            if self.tools[i].id == id {
                return Some(i);
            }
            i = i + 1;
        }
        proof {
            if has_id(self@, id) {
                let k = choose|k: int| 0 <= k < ids(self@).len() && ids(self@)[k] == id;
                assert(self@[k].id == id);
            }
        }
        None
    }

    /// Whether a tool has identifier `id`.
    pub fn contains_id(&self, id: u128) -> (r: bool)
        ensures
            r == has_id(self@, id),
    {
        match self.position(id) {
            Some(i) => {
                proof {
                    assert(ids(self@)[i as int] == id);
                }
                true
            },
            None => false,
        }
    }

    /// Adds a tool built from `input`. Its identifier is `id` if no tool has
    /// it yet; otherwise the first free one among `id + 1`, `id + 2`, ...
    /// (wrapping around). Returns the stored tool.
    pub fn create_with_id(&mut self, id: u128, input: CreateTool) -> (t: Tool)
        requires
            old(self).inv(),
        ensures
            final(self).inv(),
            final(self)@ == old(self)@.push(t@),
            !has_id(old(self)@, t.id),
            t@ == (ToolView {
                id: t.id,
                title: input.title@,
                link: input.link@,
                description: input.description@,
                tags: texts(input.tags@),
            }),
            exists|k: int|
                0 <= k <= old(self)@.len() && t.id == #[trigger] probe(id, k) && forall|j: int|
                    0 <= j < k ==> has_id(old(self)@, #[trigger] probe(id, j)),
    {
        let n = self.tools.len();
        let mut k: usize = 0;
        let mut cand = id;
        proof {
            lemma_probe_escapes(ids(self@), id);
        }
        while self.contains_id(cand)
            invariant
                self.tools.len() == n,
                k <= n,
                cand == probe(id, k as int),
                forall|j: int| 0 <= j < k ==> has_id(self@, #[trigger] probe(id, j)),
                exists|f: int| k <= f <= n && !ids(self@).contains(#[trigger] probe(id, f)),
            decreases n - k,
        {
            k = k + 1;
            cand = cand.wrapping_add(1);
        }
        let tool = Tool::from_input(cand, input);
        let out = tool.duplicate();
        let ghost before = self@;
        self.tools.push(tool);
        proof {
            assert(self@ =~= before.push(out@));
            assert forall|i: int, j: int| 0 <= i < j < self@.len() implies self@[i].id
                != self@[j].id by {
                if j == before.len() {
                    assert(ids(before)[i] == before[i].id);
                }
            }
        }
        out
    }

    /// Adds a tool built from `input` under a fresh time-ordered identifier,
    /// one that no tool in the registry has. Returns the stored tool.
    pub fn create_tool(&mut self, input: CreateTool) -> (t: Tool)
        requires
            old(self).inv(),
        ensures
            final(self).inv(),
            final(self)@ == old(self)@.push(t@),
            !has_id(old(self)@, t.id),
            t@ == (ToolView {
                id: t.id,
                title: input.title@,
                link: input.link@,
                description: input.description@,
                tags: texts(input.tags@),
            }),
    {
        let id = draw_id();
        self.create_with_id(id, input)
    }
    /// The tools that carry `tag`, or all tools when `tag` is `None`, as
    /// copies, in registry order.
    pub fn get_tools(&self, tag: &Option<String>) -> (r: Vec<Tool>)
        ensures
            views(r@) == listed(self@, tag_text(*tag)),
    {
        let ghost ft = tag_text(*tag);
        let ghost sel = |v: ToolView| selects(ft, v);
        let mut out: Vec<Tool> = Vec::new();
        let mut i: usize = 0;
        while i < self.tools.len()
            invariant
                i <= self.tools.len(),
                ft == tag_text(*tag),
                sel == (|v: ToolView| selects(ft, v)),
                views(out@) == self@.subrange(0, i as int).filter(sel),
            decreases self.tools.len() - i,
        {
            let keep = match tag {
                Some(t) => self.tools[i].has_tag(t),
                None => true,
            };
            let ghost before = out@;
            proof {
                assert(self@[i as int] == self.tools@[i as int]@);
                assert(keep == sel(self@[i as int]));
                assert(self@.subrange(0, i + 1) =~= self@.subrange(0, i as int).push(self@[i as int]));
                self@.subrange(0, i as int).lemma_filter_push(self@[i as int], sel);
            }
            if keep {
                let c = self.tools[i].duplicate();
                out.push(c);
                proof {
                    assert(views(out@) =~= views(before).push(self@[i as int]));
                }
            }
            i = i + 1;
        }
        proof {
            assert(self@.subrange(0, self@.len() as int) =~= self@);
        }
        out
    }

    /// Removes the tool with identifier `id` and returns it, or reports that
    /// there is none and leaves the registry as it was.
    pub fn remove_tool(&mut self, id: u128) -> (r: Result<Tool, RemoveError>)
        requires
            old(self).inv(),
        ensures
            final(self).inv(),
            r.is_ok() <==> has_id(old(self)@, id),
            !has_id(final(self)@, id),
            match r {
                Ok(t) => t.id == id && exists|i: int|
                    0 <= i < old(self)@.len() && old(self)@[i] == t@ && final(self)@ == old(
                        self,
                    )@.remove(i),
                Err(e) => e == RemoveError::NotFound && final(self)@ == old(self)@,
            },
    {
        match self.position(id) {
            Some(i) => {
                let ghost before = self@;
                let t = self.tools.remove(i);
                proof {
                    assert(ids(before)[i as int] == id);
                    assert(self@ =~= before.remove(i as int));
                    if has_id(self@, id) {
                        let k = choose|k: int| 0 <= k < ids(self@).len() && ids(self@)[k] == id;
                        if k < i {
                            assert(before[k].id == id);
                        } else {
                            assert(before[k + 1].id == id);
                        }
                    }
                }
                Ok(t)
            },
            None => Err(RemoveError::NotFound),
        }
    }
}

} // verus!
