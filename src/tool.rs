use vstd::prelude::*;

verus! {

/// What the logic knows of a tool: its identifier and its texts.
pub struct ToolView {
    pub id: u128,
    pub title: Seq<char>,
    pub link: Seq<char>,
    pub description: Seq<char>,
    pub tags: Seq<Seq<char>>,
}

/// The texts of a list of strings.
pub open spec fn texts(v: Seq<String>) -> Seq<Seq<char>> {
    v.map_values(|s: String| s@)
}

/// A catalogue record. The identifier is the 128-bit value of a UUID.
pub struct Tool {
    pub id: u128,
    pub title: String,
    pub link: String,
    pub description: String,
    pub tags: Vec<String>,
}

/// The fields a client supplies for a new tool; the identifier is assigned
/// by the registry.
pub struct CreateTool {
    pub title: String,
    pub link: String,
    pub description: String,
    pub tags: Vec<String>,
}

impl View for Tool {
    type V = ToolView;

    open spec fn view(&self) -> ToolView {
        ToolView {
            id: self.id,
            title: self.title@,
            link: self.link@,
            description: self.description@,
            tags: texts(self.tags@),
        }
    }
}

/// Whether a tool carries a tag (exact, case-sensitive match).
pub open spec fn tagged(t: ToolView, tag: Seq<char>) -> bool {
    t.tags.contains(tag)
}

/// A copy of a list of strings.
fn copy_strings(v: &Vec<String>) -> (r: Vec<String>)
    ensures
        texts(r@) == texts(v@),
{
    let mut r: Vec<String> = Vec::new();
    let mut i: usize = 0;
    while i < v.len()
        invariant
            i <= v.len(),
            texts(r@) == texts(v@.subrange(0, i as int)),
        decreases v.len() - i,
    {
        let ghost before = r@;
        let s = v[i].clone();
        r.push(s);
        proof {
            assert(v@.subrange(0, i + 1) == v@.subrange(0, i as int).push(v@[i as int]));
            assert(texts(r@) =~= texts(before).push(v@[i as int]@));
            assert(texts(v@.subrange(0, i + 1)) =~= texts(v@.subrange(0, i as int)).push(
                v@[i as int]@,
            ));
        }
        i = i + 1;
    }
    proof {
        assert(v@.subrange(0, v@.len() as int) == v@);
    }
    r
}

impl Tool {
    /// Builds the tool with identifier `id` from a client's fields.
    pub fn from_input(id: u128, input: CreateTool) -> (r: Tool)
        ensures
            r@ == (ToolView {
                id,
                title: input.title@,
                link: input.link@,
                description: input.description@,
                tags: texts(input.tags@),
            }),
    {
        Tool {
            id,
            title: input.title,
            link: input.link,
            description: input.description,
            tags: input.tags,
        }
    }

    /// An independent copy of this tool.
    pub fn duplicate(&self) -> (r: Tool)
        ensures
            r@ == self@,
    {
        Tool {
            id: self.id,
            title: self.title.clone(),
            link: self.link.clone(),
            description: self.description.clone(),
            tags: copy_strings(&self.tags),
        }
    }

    /// Whether one of this tool's tags equals `tag` exactly.
    pub fn has_tag(&self, tag: &String) -> (r: bool)
        ensures
            r == tagged(self@, tag@),
    {
        let mut i: usize = 0;
        while i < self.tags.len()
            invariant
                i <= self.tags.len(),
                forall|j: int| 0 <= j < i ==> self.tags@[j]@ != tag@,
            decreases self.tags.len() - i,
        {
            if self.tags[i] == *tag {
                proof {
                    assert(self@.tags[i as int] == tag@);
                }
                return true;
            }
            i = i + 1;
        }
        proof {
            if self@.tags.contains(tag@) {
                let k = choose|k: int| 0 <= k < self@.tags.len() && self@.tags[k] == tag@;
                assert(self.tags@[k]@ == tag@);
            }
        }
        false
    }
}

} // verus!
