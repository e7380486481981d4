//! The editor's tools: their names, descriptions, icons and shortcut keys.
use vstd::prelude::*;

verus! {

/// The tool that paints voxels with the current shape.
#[derive(Debug)]
pub struct BrushTool {
    id: String,
}

impl BrushTool {
    /// The tool's name.
    pub closed spec fn name(&self) -> Seq<char> {
        self.id@
    }

    pub fn new() -> (r: Self)
        ensures
            r.name() == "Brush Tool"@,
    {
        BrushTool { id: String::from_str("Brush Tool") }
    }

    pub fn id(&self) -> (r: String)
        ensures
            r@ == self.name(),
    {
        self.id.clone()
    }

    pub fn info(&self) -> (r: String)
        ensures
            r@ == "Brush Tool."@,
    {
        String::from_str("Brush Tool.")
    }

    pub fn icon_name(&self) -> (r: String)
        ensures
            r@ == "move"@,
    {
        String::from_str("move")
    }

    pub fn accel(&self) -> (r: Option<char>)
        ensures
            r == Some('b'),
    {
        Some('b')
    }
}

/// The tool that edits the graph of the current mode.
#[derive(Debug)]
pub struct EditTool {
    id: String,
}

impl EditTool {
    /// The tool's name.
    pub closed spec fn name(&self) -> Seq<char> {
        self.id@
    }

    pub fn new() -> (r: Self)
        ensures
            r.name() == "Edit Tool"@,
    {
        EditTool { id: String::from_str("Edit Tool") }
    }

    pub fn id(&self) -> (r: String)
        ensures
            r@ == self.name(),
    {
        self.id.clone()
    }

    pub fn info(&self) -> (r: String)
        ensures
            r@ == "Edit the current mode (E)."@,
    {
        String::from_str("Edit the current mode (E).")
    }

    pub fn icon_name(&self) -> (r: String)
        ensures
            r@ == "hand-pointing"@,
    {
        String::from_str("hand-pointing")
    }

    pub fn accel(&self) -> (r: Option<char>)
        ensures
            r == Some('e'),
    {
        Some('e')
    }
}

/// A tool of the editor's tool list.
#[derive(Debug)]
pub enum AnyTool {
    Edit(EditTool),
    Brush(BrushTool),
}

impl AnyTool {
    /// The tool's name.
    pub open spec fn name(&self) -> Seq<char> {
        match self {
            AnyTool::Edit(t) => t.name(),
            AnyTool::Brush(t) => t.name(),
        }
    }

    /// The tool's shortcut key.
    pub open spec fn key(&self) -> Option<char> {
        match self {
            AnyTool::Edit(_) => Some('e'),
            AnyTool::Brush(_) => Some('b'),
        }
    }

    pub fn id(&self) -> (r: String)
        ensures
            r@ == self.name(),
    {
        match self {
            AnyTool::Edit(t) => t.id(),
            AnyTool::Brush(t) => t.id(),
        }
    }

    pub fn accel(&self) -> (r: Option<char>)
        ensures
            r == self.key(),
    {
        match self {
            AnyTool::Edit(t) => t.accel(),
            AnyTool::Brush(t) => t.accel(),
        }
    }
}

/// `r` is the first tool of the list with the name, or the first tool where
/// none has it.
pub open spec fn is_current_index(tools: Seq<AnyTool>, name: Seq<char>, r: int) -> bool {
    if exists|i: int| 0 <= i < tools.len() && #[trigger] tools[i].name() == name {
        &&& 0 <= r < tools.len()
        &&& tools[r].name() == name
        &&& forall|j: int| 0 <= j < r ==> #[trigger] tools[j].name() != name
    } else {
        r == 0
    }
}

/// `i` is the last tool of the list with the key as its shortcut.
pub open spec fn is_last_key(tools: Seq<AnyTool>, c: char, i: int) -> bool {
    &&& 0 <= i < tools.len()
    &&& tools[i].key() == Some(c)
    &&& forall|j: int| i < j < tools.len() ==> #[trigger] tools[j].key() != Some(c)
}

/// A switch to the tool at `index`, from the current name `curr` to `next`:
/// unless that tool is current already or there is none there, it becomes
/// current, a redraw is asked for and the deactivation goes to that tool.
/// The activation goes to the current tool.
pub open spec fn switch_to(
    tools: Seq<AnyTool>,
    curr: Seq<char>,
    index: int,
    r: ToolSwitch,
    next: Seq<char>,
) -> bool {
    let switched = 0 <= index < tools.len() && tools[index].name() != curr;
    &&& switched ==> next == tools[index].name() && r.redraw && r.deactivate == Some(
        index as usize,
    )
    &&& !switched ==> next == curr && !r.redraw && r.deactivate is None
    &&& is_current_index(tools, next, r.activate as int)
}

/// What a switch of tools asks of the interface: whether to redraw, which
/// tool gets the deactivation event, and which the activation event.
#[derive(Clone, Copy, Debug, PartialEq, Eq, Structural)]
pub struct ToolSwitch {
    pub redraw: bool,
    pub deactivate: Option<usize>,
    pub activate: usize,
}

/// The editor's tools and the name of the current one.
#[derive(Debug)]
pub struct ToolList {
    pub tools: Vec<AnyTool>,
    pub curr_tool: String,
}

impl Default for ToolList {
    fn default() -> (r: Self)
        ensures
            r.tools@.len() == 2,
            r.tools@[0] is Edit,
            r.tools@[1] is Brush,
            r.curr_tool@ == "Edit Tool"@,
    {
        Self::new()
    }
}

impl ToolList {
    /// The edit tool, then the brush tool; the edit tool is current.
    pub fn new() -> (r: Self)
        ensures
            r.tools@.len() == 2,
            r.tools@[0] is Edit,
            r.tools@[1] is Brush,
            r.tools@[0].name() == "Edit Tool"@,
            r.tools@[1].name() == "Brush Tool"@,
            r.curr_tool@ == "Edit Tool"@,
    {
        let mut tools: Vec<AnyTool> = Vec::new();
        tools.push(AnyTool::Edit(EditTool::new()));
        tools.push(AnyTool::Brush(BrushTool::new()));
        ToolList { tools, curr_tool: String::from_str("Edit Tool") }
    }

    /// The current tool: the first with the current name, else the first.
    pub fn get_current_tool(&self) -> (r: usize)
        ensures
            is_current_index(self.tools@, self.curr_tool@, r as int),
    {
        let mut i: usize = 0;
        while i < self.tools.len()
            invariant
                i <= self.tools.len(),
                forall|j: int| 0 <= j < i ==> #[trigger] self.tools@[j].name() != self.curr_tool@,
            decreases self.tools.len() - i,
        {
            let name = self.tools[i].id();
            if name == self.curr_tool {
                return i;
            }
            i = i + 1;
        }
        0
    }

    /// The last tool whose shortcut is the key.
    pub fn tool_for_key(&self, c: char) -> (r: Option<usize>)
        ensures
            match r {
                Some(i) => i < self.tools@.len() && self.tools@[i as int].key() == Some(c)
                    && forall|j: int|
                    i < j < self.tools@.len() ==> #[trigger] self.tools@[j].key() != Some(c),
                None => forall|j: int|
                    0 <= j < self.tools@.len() ==> #[trigger] self.tools@[j].key() != Some(c),
            },
    {
        let mut found: Option<usize> = None;
        let mut i: usize = 0;
        while i < self.tools.len()
            invariant
                i <= self.tools.len(),
                match found {
                    Some(k) => k < i && self.tools@[k as int].key() == Some(c) && forall|j: int|
                        k < j < i ==> #[trigger] self.tools@[j].key() != Some(c),
                    None => forall|j: int| 0 <= j < i ==> #[trigger] self.tools@[j].key() != Some(c),
                },
            decreases self.tools.len() - i,
        {
            if self.tools[i].accel() == Some(c) {
                found = Some(i);
            }
            i = i + 1;
        }
        found
    }

    /// Switches to the tool at the position, unless it is current already
    /// or there is none there. A switch asks for a redraw and sends the
    /// deactivation to the tool that was switched to; the current tool is
    /// then activated.
    pub fn set_tool(&mut self, index: usize) -> (r: ToolSwitch)
        ensures
            final(self).tools@ == old(self).tools@,
            switch_to(old(self).tools@, old(self).curr_tool@, index as int, r, final(self).curr_tool@),
    {
        let mut switched = false;
        let mut old_tool_index: usize = 0;
        if index < self.tools.len() {
            let name = self.tools[index].id();
            if !(name == self.curr_tool) {
                switched = true;
                old_tool_index = index;
                self.curr_tool = name;
            }
        }
        let activate = self.get_current_tool();
        ToolSwitch {
            redraw: switched,
            deactivate: if switched {
                Some(old_tool_index)
            } else {
                None
            },
            activate,
        }
    }

    /// A key press: unless the focused widget takes text, the last tool with
    /// that shortcut becomes current.
    pub fn key_down(&mut self, c: char, text_focus: bool) -> (r: Option<ToolSwitch>)
        ensures
            final(self).tools@ == old(self).tools@,
            match r {
                Some(sw) => !text_focus && exists|i: int|
                    is_last_key(old(self).tools@, c, i) && #[trigger] switch_to(
                        old(self).tools@,
                        old(self).curr_tool@,
                        i,
                        sw,
                        final(self).curr_tool@,
                    ),
                None => final(self).curr_tool@ == old(self).curr_tool@ && (text_focus || forall|
                    j: int,
                | 0 <= j < old(self).tools@.len() ==> #[trigger] old(self).tools@[j].key() != Some(c)),
            },
    {
        if text_focus {
            return None;
        }
        match self.tool_for_key(c) {
            Some(i) => {
                let sw = self.set_tool(i);
                assert(is_last_key(old(self).tools@, c, i as int));
                Some(sw)
            },
            None => None,
        }
    }
}

/// Restarts the accumulation of rendered samples: the next sample is the first.
pub fn reset_render(accum: &mut i32)
    ensures
        *final(accum) == 1,
{
    *accum = 1;
}

} // verus!
