//! The roles of the nodes of the node editor, and how their names read.
use vstd::prelude::*;

verus! {

/// What a node of the node editor does.
#[derive(Clone, Copy, Debug, PartialEq, Eq, Structural)]
pub enum NodeFXRole {
    BaseColor,
    Brush,
    MaterialIndex,
    PatternUV,
    Checker,
}

/// A connection point of a node: its name and the category of nodes it links.
#[derive(Debug)]
pub struct NodeTerminal {
    pub name: String,
    pub category_name: String,
}

/// The role a stored name stands for.
pub open spec fn role_of_name(s: Seq<char>) -> Option<NodeFXRole> {
    if s == "BaseColor"@ {
        Some(NodeFXRole::BaseColor)
    } else if s == "Brush"@ {
        Some(NodeFXRole::Brush)
    } else if s == "Checker"@ {
        Some(NodeFXRole::Checker)
    } else if s == "MaterialIndex"@ {
        Some(NodeFXRole::MaterialIndex)
    } else if s == "PatternUV"@ {
        Some(NodeFXRole::PatternUV)
    } else {
        None
    }
}

/// The name a node of the role shows.
pub open spec fn role_title(role: NodeFXRole) -> Seq<char> {
    match role {
        NodeFXRole::BaseColor => "Base Color"@,
        NodeFXRole::Brush => "Brush"@,
        NodeFXRole::Checker => "Checker"@,
        NodeFXRole::MaterialIndex => "Material"@,
        NodeFXRole::PatternUV => "Pattern UV"@,
    }
}

fn text_is(s: &str, t: &str) -> (r: bool)
    ensures
        r == (s@ == t@),
{
    String::from_str(s).eq(&String::from_str(t))
}

fn terminal(name: &str) -> (r: NodeTerminal)
    ensures
        r.name@ == name@,
        r.category_name@ == "ShapeFX"@,
{
    NodeTerminal { name: String::from_str(name), category_name: String::from_str("ShapeFX") }
}

impl NodeFXRole {
    /// The role a stored name stands for; an unknown name is refused.
    pub fn from_name(s: &str) -> (r: Result<NodeFXRole, ()>)
        ensures
            match role_of_name(s@) {
                Some(role) => r == Ok::<NodeFXRole, ()>(role),
                None => r is Err,
            },
    {
        if text_is(s, "BaseColor") {
            Ok(NodeFXRole::BaseColor)
        } else if text_is(s, "Brush") {
            Ok(NodeFXRole::Brush)
        } else if text_is(s, "Checker") {
            Ok(NodeFXRole::Checker)
        } else if text_is(s, "MaterialIndex") {
            Ok(NodeFXRole::MaterialIndex)
        } else if text_is(s, "PatternUV") {
            Ok(NodeFXRole::PatternUV)
        } else {
            Err(())
        }
    }

    /// The name a node of the role shows.
    pub fn name(&self) -> (r: String)
        ensures
            r@ == role_title(*self),
    {
        match self {
            NodeFXRole::BaseColor => String::from_str("Base Color"),
            NodeFXRole::Brush => String::from_str("Brush"),
            NodeFXRole::Checker => String::from_str("Checker"),
            NodeFXRole::MaterialIndex => String::from_str("Material"),
            NodeFXRole::PatternUV => String::from_str("Pattern UV"),
        }
    }

    /// The inputs of a node of the role: none for a base color or a pattern's
    /// coordinates, else one named `in`.
    pub fn inputs(&self) -> (r: Vec<NodeTerminal>)
        ensures
            match *self {
                NodeFXRole::BaseColor | NodeFXRole::PatternUV => r.len() == 0,
                _ => r.len() == 1 && r[0].name@ == "in"@ && r[0].category_name@ == "ShapeFX"@,
            },
    {
        match self {
            NodeFXRole::BaseColor | NodeFXRole::PatternUV => Vec::new(),
            _ => {
                let mut v = Vec::new();
                v.push(terminal("in"));
                v
            },
        }
    }

    /// The outputs of a node of the role: two materials for a checker, else
    /// one named `out`.
    pub fn outputs(&self) -> (r: Vec<NodeTerminal>)
        ensures
            match *self {
                NodeFXRole::Checker => r.len() == 2 && r[0].name@ == "mat1"@ && r[1].name@
                    == "mat2"@,
                _ => r.len() == 1 && r[0].name@ == "out"@,
            },
            forall|i: int| 0 <= i < r.len() ==> #[trigger] r[i].category_name@ == "ShapeFX"@,
    {
        let mut v = Vec::new();
        match self {
            NodeFXRole::Checker => {
                v.push(terminal("mat1"));
                v.push(terminal("mat2"));
            },
            _ => {
                v.push(terminal("out"));
            },
        }
        v
    }
}

impl core::str::FromStr for NodeFXRole {
    type Err = ();

    fn from_str(s: &str) -> (r: Result<Self, Self::Err>)
        ensures
            match role_of_name(s@) {
                Some(role) => r == Ok::<NodeFXRole, ()>(role),
                None => r is Err,
            },
    {
        NodeFXRole::from_name(s)
    }
}

/// How the nodes of a graph are wired: each connection links a source node
/// and terminal to a destination node and terminal.
#[derive(Debug)]
pub struct NodeFXGraph {
    pub connections: Vec<(u16, u8, u16, u8)>,
    pub selected_node: Option<usize>,
}

/// Whether the connection leaves the given output terminal of the node.
pub open spec fn leaves(e: (u16, u8, u16, u8), node: usize, terminal: usize) -> bool {
    e.0 == node as u16 && e.1 == terminal as u8
}

/// Whether the connection enters the given input terminal of the node.
pub open spec fn enters(e: (u16, u8, u16, u8), node: usize, terminal: usize) -> bool {
    e.2 == node as u16 && e.3 == terminal as u8
}

impl NodeFXGraph {
    /// The input that the given output of the given node feeds, by the first
    /// connection from it. Node and terminal are compared as the 16-bit and
    /// 8-bit numbers the connections hold.
    pub fn find_connected_input_node(&self, node: usize, terminal_index: usize) -> (r: Option<
        (u16, u8),
    >)
        ensures
            match r {
                Some(v) => exists|k: int|
                    0 <= k < self.connections@.len() && #[trigger] leaves(
                        self.connections@[k],
                        node,
                        terminal_index,
                    ) && v == (self.connections@[k].2, self.connections@[k].3) && forall|j: int|
                        0 <= j < k ==> !leaves(#[trigger] self.connections@[j], node, terminal_index),
                None => forall|j: int|
                    0 <= j < self.connections@.len() ==> !leaves(
                        #[trigger] self.connections@[j],
                        node,
                        terminal_index,
                    ),
            },
    {
        let o = node as u16;
        let ot = terminal_index as u8;
        let mut k: usize = 0;
        while k < self.connections.len()
            invariant
                k <= self.connections.len(),
                o == node as u16,
                ot == terminal_index as u8,
                forall|j: int| 0 <= j < k ==> !leaves(#[trigger] self.connections@[j], node, terminal_index),
            decreases self.connections.len() - k,
        {
            let (a, b, c, d) = self.connections[k];
            if a == o && b == ot {
                assert(leaves(self.connections@[k as int], node, terminal_index));
                return Some((c, d));
            }
            k = k + 1;
        }
        None
    }

    /// The output node that feeds the given input of the given node, by the
    /// first connection into it.
    pub fn find_connected_output_node(&self, node: usize, terminal_index: usize) -> (r: Option<
        usize,
    >)
        ensures
            match r {
                Some(v) => exists|k: int|
                    0 <= k < self.connections@.len() && #[trigger] enters(
                        self.connections@[k],
                        node,
                        terminal_index,
                    ) && v == self.connections@[k].0 as usize && forall|j: int|
                        0 <= j < k ==> !enters(#[trigger] self.connections@[j], node, terminal_index),
                None => forall|j: int|
                    0 <= j < self.connections@.len() ==> !enters(
                        #[trigger] self.connections@[j],
                        node,
                        terminal_index,
                    ),
            },
    {
        let i = node as u16;
        let it = terminal_index as u8;
        let mut k: usize = 0;
        while k < self.connections.len()
            invariant
                k <= self.connections.len(),
                i == node as u16,
                it == terminal_index as u8,
                forall|j: int| 0 <= j < k ==> !enters(#[trigger] self.connections@[j], node, terminal_index),
            decreases self.connections.len() - k,
        {
            let (a, _, c, d) = self.connections[k];
            if c == i && d == it {
                assert(enters(self.connections@[k as int], node, terminal_index));
                return Some(a as usize);
            }
            k = k + 1;
        }
        None
    }
}

/// Whether Unicode counts the character as an uppercase letter.
pub uninterp spec fn is_upper(c: char) -> bool;

/// `char::is_uppercase` of std: claimed to follow the Unicode property, under
/// which the only uppercase characters of ASCII are the capitals `A` to `Z`.
#[verifier::external_body]
fn char_is_uppercase(c: char) -> (r: bool)
    ensures
        r == is_upper(c),
        (c as u32) < 128 ==> (r <==> 'A' <= c <= 'Z'),
{
    c.is_uppercase()
}


/// An ASCII capital made small; any other character as it is.
pub open spec fn ascii_lower(c: char) -> char {
    if 'A' <= c <= 'Z' {
        ((c as u32) + 32) as char
    } else {
        c
    }
}

/// The snake case of a text: an underscore before each uppercase letter but a
/// first one, and the ASCII capitals made small.
pub open spec fn snake_case(s: Seq<char>) -> Seq<char>
    decreases s.len(),
{
    if s.len() == 0 {
        Seq::empty()
    } else {
        let c = s.last();
        let head = snake_case(s.drop_last());
        if is_upper(c) {
            (if s.len() > 1 {
                head.push('_')
            } else {
                head
            }).push(ascii_lower(c))
        } else {
            head.push(c)
        }
    }
}

/// Every character of the text is ASCII.
pub open spec fn is_ascii_text(s: Seq<char>) -> bool {
    forall|i: int| 0 <= i < s.len() ==> (#[trigger] s[i] as u32) < 128
}

/// The snake case of an ASCII text: an underscore before each capital but a
/// first one, and each capital made small.
pub open spec fn ascii_snake_case(s: Seq<char>) -> Seq<char>
    decreases s.len(),
{
    if s.len() == 0 {
        Seq::empty()
    } else {
        let c = s.last();
        let head = ascii_snake_case(s.drop_last());
        if 'A' <= c <= 'Z' {
            (if s.len() > 1 {
                head.push('_')
            } else {
                head
            }).push(ascii_lower(c))
        } else {
            head.push(c)
        }
    }
}

/// Where each ASCII character of a text is uppercase just when it is a
/// capital, the two snake cases of an ASCII text agree.
proof fn lemma_ascii_snake_case(s: Seq<char>)
    requires
        is_ascii_text(s),
        forall|i: int| 0 <= i < s.len() ==> (is_upper(#[trigger] s[i]) <==> 'A' <= s[i] <= 'Z'),
    ensures
        snake_case(s) == ascii_snake_case(s),
    decreases s.len(),
{
    if s.len() > 0 {
        let t = s.drop_last();
        assert forall|i: int| 0 <= i < t.len() implies (#[trigger] t[i] as u32) < 128 by {
            assert(t[i] == s[i]);
        }
        assert forall|i: int| 0 <= i < t.len() implies (is_upper(#[trigger] t[i]) <==> 'A' <= t[i]
            <= 'Z') by {
            assert(t[i] == s[i]);
        }
        lemma_ascii_snake_case(t);
        assert(s.last() == s[s.len() - 1]);
    }
}

/// The text without the prefix, where it starts with it.
pub open spec fn strip_prefix(s: Seq<char>, prefix: Seq<char>) -> Seq<char> {
    if prefix.len() <= s.len() && s.take(prefix.len() as int) == prefix {
        s.skip(prefix.len() as int)
    } else {
        s
    }
}

/// Turns a node's name into the name of its parameter: the prefix is stripped,
/// then the rest put in snake case.
pub fn transform_to_snake_case(input: &str, prefix: &str) -> (r: String)
    ensures
        r@ == snake_case(strip_prefix(input@, prefix@)),
        is_ascii_text(strip_prefix(input@, prefix@)) ==> r@ == ascii_snake_case(
            strip_prefix(input@, prefix@),
        ),
{
    let n = input.unicode_len();
    let m = prefix.unicode_len();
    let mut start: usize = 0;
    if m <= n {
        let mut k: usize = 0;
        let mut same = true;
        assert(input@.take(0) =~= prefix@.take(0));
        while k < m
            invariant
                k <= m <= n,
                n == input@.len(),
                m == prefix@.len(),
                same == (input@.take(k as int) == prefix@.take(k as int)),
            decreases m - k,
        {
            let a = input.get_char(k);
            let b = prefix.get_char(k);
            proof {
                assert(input@.take(k + 1) == input@.take(k as int).push(a));
                assert(prefix@.take(k + 1) == prefix@.take(k as int).push(b));
                if input@.take(k + 1) == prefix@.take(k + 1) {
                    assert(input@.take(k + 1)[k as int] == a);
                    assert(prefix@.take(k + 1)[k as int] == b);
                    assert(input@.take(k as int) == input@.take(k + 1).drop_last());
                    assert(prefix@.take(k as int) == prefix@.take(k + 1).drop_last());
                }
            }
            same = same && a == b;
            k = k + 1;
        }
        assert(prefix@.take(m as int) == prefix@);
        if same {
            start = m;
        }
    }
    let ghost stripped = strip_prefix(input@, prefix@);
    assert(stripped == input@.skip(start as int));
    let mut out = String::new();
    let mut i: usize = start;
    while i < n
        invariant
            start <= i <= n,
            n == input@.len(),
            stripped == input@.skip(start as int),
            out@ == snake_case(stripped.take(i - start)),
            forall|j: int|
                0 <= j < i - start ==> ((#[trigger] stripped[j] as u32) < 128 ==> (is_upper(
                    stripped[j],
                ) <==> 'A' <= stripped[j] <= 'Z')),
        decreases n - i,
    {
        let c = input.get_char(i);
        let ghost t = stripped.take(i - start + 1);
        assert(t.drop_last() == stripped.take(i - start));
        assert(t.last() == c);
        let up = char_is_uppercase(c);
        assert(c == stripped[i - start]);
        if up {
            if i > start {
                crate::text::push_char(&mut out, '_');
            }
            let l = if 'A' <= c && c <= 'Z' {
                let b = c as u32;
                ((b + 32) as u8) as char
            } else {
                c
            };
            assert(l == ascii_lower(c));
            crate::text::push_char(&mut out, l);
        } else {
            crate::text::push_char(&mut out, c);
        }
        i = i + 1;
    }
    assert(stripped.take(n - start) == stripped);
    proof {
        if is_ascii_text(stripped) {
            lemma_ascii_snake_case(stripped);
        }
    }
    out
}

/// The name under which a role is stored: that of its variant.
pub open spec fn stored_name(role: NodeFXRole) -> Seq<char> {
    match role {
        NodeFXRole::BaseColor => "BaseColor"@,
        NodeFXRole::Brush => "Brush"@,
        NodeFXRole::Checker => "Checker"@,
        NodeFXRole::MaterialIndex => "MaterialIndex"@,
        NodeFXRole::PatternUV => "PatternUV"@,
    }
}

/// Reading a role's stored name gives that role back, and a name that reads
/// as a role is that role's stored name: no two roles share a name.
pub proof fn law_role_names_round_trip(role: NodeFXRole, s: Seq<char>)
    ensures
        role_of_name(stored_name(role)) == Some(role),
        role_of_name(s) == Some(role) ==> s == stored_name(role),
{
    reveal_strlit("BaseColor");
    reveal_strlit("Brush");
    reveal_strlit("Checker");
    reveal_strlit("MaterialIndex");
    reveal_strlit("PatternUV");
    assert("BaseColor"@[0] == 'B' && "BaseColor"@.len() == 9);
    assert("Brush"@[0] == 'B' && "Brush"@.len() == 5);
    assert("Checker"@[0] == 'C');
    assert("MaterialIndex"@[0] == 'M');
    assert("PatternUV"@[0] == 'P');
}


} // verus!
