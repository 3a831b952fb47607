use crate::rope::{rope_chars, rope_len_chars, rope_text};
use crate::text::{lowercase, to_lowercase};
use ropey::Rope;
use vstd::prelude::*;
use vstd::string::*;

verus! {

/// How a block lays out its children.
#[derive(Clone, Copy, Debug, PartialEq, Eq, Structural)]
pub enum Direction {
    Horizontal,
    Vertical,
}

/// The room a child asks for within its parent.
#[derive(Clone, Copy, Debug, PartialEq, Eq, Structural)]
pub enum Constraint {
    Min(u16),
    Max(u16),
    Length(u16),
    Percentage(u16),
    Ratio(u32, u32),
    Fill(u16),
}

/// Why a description of a constraint was refused.
#[derive(Clone, Copy, Debug, PartialEq, Eq, Structural)]
pub enum ConstraintError {
    /// The variant named is none of `fill`, `lenght`, `max`, `min`,
    /// `percentage`.
    UnexpectedVariant,
}

/// The constraint that a lowercased variant name and a value describe.
pub open spec fn constraint_spec(variant: Seq<char>, value: u16) -> Result<
    Constraint,
    ConstraintError,
> {
    if variant == seq!['f', 'i', 'l', 'l'] {
        Ok(Constraint::Fill(value))
    } else if variant == seq!['l', 'e', 'n', 'g', 'h', 't'] {
        Ok(Constraint::Length(value))
    } else if variant == seq!['m', 'a', 'x'] {
        Ok(Constraint::Max(value))
    } else if variant == seq!['m', 'i', 'n'] {
        Ok(Constraint::Min(value))
    } else if variant == seq!['p', 'e', 'r', 'c', 'e', 'n', 't', 'a', 'g', 'e'] {
        Ok(Constraint::Percentage(value))
    } else {
        Err(ConstraintError::UnexpectedVariant)
    }
}

/// The constraint that a lowercased variant name and a value describe.
pub fn constraint_from_variant(variant: &str, value: u16) -> (r: Result<Constraint, ConstraintError>)
    ensures
        r == constraint_spec(variant@, value),
{
    let v = variant.to_string();
    let fill = "fill".to_string();
    let lenght = "lenght".to_string();
    let max = "max".to_string();
    let min = "min".to_string();
    let percentage = "percentage".to_string();
    proof {
        reveal_strlit("fill");
        reveal_strlit("lenght");
        reveal_strlit("max");
        reveal_strlit("min");
        reveal_strlit("percentage");
        assert(fill@ =~= seq!['f', 'i', 'l', 'l']);
        assert(lenght@ =~= seq!['l', 'e', 'n', 'g', 'h', 't']);
        assert(max@ =~= seq!['m', 'a', 'x']);
        assert(min@ =~= seq!['m', 'i', 'n']);
        assert(percentage@ =~= seq!['p', 'e', 'r', 'c', 'e', 'n', 't', 'a', 'g', 'e']);
    }
    if v == fill {
        Ok(Constraint::Fill(value))
    } else if v == lenght {
        Ok(Constraint::Length(value))
    } else if v == max {
        Ok(Constraint::Max(value))
    } else if v == min {
        Ok(Constraint::Min(value))
    } else if v == percentage {
        Ok(Constraint::Percentage(value))
    } else {
        Err(ConstraintError::UnexpectedVariant)
    }
}

/// The constraint that a variant name, in any case, and a value describe.
pub fn parse_constraint(variant: &str, value: u16) -> (r: Result<Constraint, ConstraintError>)
    ensures
        r == constraint_spec(lowercase(variant@), value),
{
    let lower = to_lowercase(variant);
    constraint_from_variant(lower.as_str(), value)
}

/// A handle of a node of the interface tree.
#[derive(Clone, Copy, Debug, PartialEq, Eq, Structural)]
pub struct UiNode(pub usize);

/// A node of the interface tree.
#[derive(Debug)]
pub enum UiNodeInner {
    /// A block that lays its children out in a direction.
    Block { direction: Direction, children: Vec<(UiNode, Constraint)> },
    /// Tabs, one per child.
    Tabs { children: Vec<(UiNode, Constraint)> },
    /// A paragraph of text.
    Paragraph { text: String },
    /// The contents of a buffer, by its index among the open buffers.
    Buffer(usize),
}

impl UiNodeInner {
    /// The children of a block or of tabs, nothing for other nodes.
    pub open spec fn children(&self) -> Seq<(UiNode, Constraint)> {
        match self {
            UiNodeInner::Block { children, .. } => children@,
            UiNodeInner::Tabs { children } => children@,
            _ => Seq::empty(),
        }
    }

    /// The text of a paragraph.
    pub open spec fn paragraph_text(&self) -> Option<Seq<char>> {
        match self {
            UiNodeInner::Paragraph { text } => Some(text@),
            _ => None,
        }
    }

    /// Appends a child, with its constraint, to a block or tabs; other nodes
    /// take no children and stay as they are.
    pub fn append_child(&mut self, node: UiNode, constraint: Constraint)
        ensures
            final(self).same_shape(old(self)),
            final(self).paragraph_text() == old(self).paragraph_text(),
            final(self).children() == (match *old(self) {
                UiNodeInner::Block { .. } | UiNodeInner::Tabs { .. } => old(self).children().push(
                    (node, constraint),
                ),
                _ => old(self).children(),
            }),
    {
        match self {
            UiNodeInner::Block { children, .. } => {
                children.push((node, constraint));
            },
            UiNodeInner::Tabs { children } => {
                children.push((node, constraint));
            },
            _ => {},
        }
    }

    /// Replaces the text of a paragraph; other nodes stay as they are.
    pub fn text(&mut self, text: String)
        ensures
            *old(self) is Paragraph ==> *final(self) == (UiNodeInner::Paragraph { text }),
            !(*old(self) is Paragraph) ==> *final(self) == *old(self),
    {
        match self {
            UiNodeInner::Paragraph { .. } => {
                *self = UiNodeInner::Paragraph { text };
            },
            _ => {},
        }
    }

    /// The same kind of node with the same layout and text.
    pub open spec fn same_shape(&self, other: &UiNodeInner) -> bool {
        match (self, other) {
            (
                UiNodeInner::Block { direction: d1, .. },
                UiNodeInner::Block { direction: d2, .. },
            ) => d1 == d2,
            (UiNodeInner::Tabs { .. }, UiNodeInner::Tabs { .. }) => true,
            (UiNodeInner::Paragraph { .. }, UiNodeInner::Paragraph { .. }) => true,
            (UiNodeInner::Buffer(a), UiNodeInner::Buffer(b)) => a == b,
            _ => false,
        }
    }
}

/// The interface as a tree of nodes kept side by side; a node may be shared
/// by several parents, and a change to it shows wherever it stands.
#[derive(Debug)]
pub struct UiTree {
    pub nodes: Vec<UiNodeInner>,
    pub root: UiNode,
}

impl UiTree {
    /// Every handle in the tree, the root's and the children's, names a
    /// node.
    pub open spec fn wf(&self) -> bool {
        &&& self.root.0 < self.nodes@.len()
        &&& forall|i: int, j: int|
            0 <= i < self.nodes@.len() && 0 <= j < self.nodes@[i].children().len() ==> (
            #[trigger] self.nodes@[i].children()[j]).0 .0 < self.nodes@.len()
    }

    /// The initial interface: a vertical block holding one horizontal block
    /// that takes all of the room.
    pub fn initial() -> (t: UiTree)
        ensures
            t.wf(),
            t.nodes@.len() == 2,
            t.root == UiNode(0),
            t.nodes@[0] matches UiNodeInner::Block { direction, children } && direction
                == Direction::Vertical && children@ == seq![(UiNode(1), Constraint::Percentage(100))],
            t.nodes@[1] matches UiNodeInner::Block { direction, children } && direction
                == Direction::Horizontal && children@.len() == 0,
    {
        let mut children: Vec<(UiNode, Constraint)> = Vec::new();
        children.push((UiNode(1), Constraint::Percentage(100)));
        let mut nodes: Vec<UiNodeInner> = Vec::new();
        nodes.push(UiNodeInner::Block { direction: Direction::Vertical, children });
        nodes.push(UiNodeInner::Block { direction: Direction::Horizontal, children: Vec::new() });
        let t = UiTree { nodes, root: UiNode(0) };
        assert(t.nodes@[0].children()[0].0 .0 == 1);
        t
    }

    /// Adds a node with no parent yet; returns its handle.
    pub fn new_node(&mut self, inner: UiNodeInner) -> (n: UiNode)
        requires
            old(self).wf(),
            forall|j: int|
                0 <= j < inner.children().len() ==> (#[trigger] inner.children()[j]).0 .0 < old(self).nodes@.len(),
        ensures
            final(self).wf(),
            n.0 == old(self).nodes@.len(),
            final(self).nodes@ == old(self).nodes@.push(inner),
            final(self).root == old(self).root,
    {
        let n = UiNode(self.nodes.len());
        self.nodes.push(inner);
        proof {
            assert forall|i: int, j: int|
                0 <= i < self.nodes@.len() && 0 <= j < self.nodes@[i].children().len() implies (
            #[trigger] self.nodes@[i].children()[j]).0 .0 < self.nodes@.len() by {
                if i < old(self).nodes@.len() {
                    assert(self.nodes@[i] == old(self).nodes@[i]);
                }
            }
        }
        n
    }

    /// Appends a child, with its constraint, to a block or tabs; other nodes
    /// take no children and stay as they are.
    pub fn append_child(&mut self, parent: UiNode, node: UiNode, constraint: Constraint)
        requires
            old(self).wf(),
            parent.0 < old(self).nodes@.len(),
            node.0 < old(self).nodes@.len(),
        ensures
            final(self).wf(),
            final(self).root == old(self).root,
            final(self).nodes@.len() == old(self).nodes@.len(),
            forall|i: int|
                0 <= i < old(self).nodes@.len() && i != parent.0 ==> #[trigger] final(self).nodes@[i] == old(self).nodes@[i],
            final(self).nodes@[parent.0 as int].same_shape(&old(self).nodes@[parent.0 as int]),
            final(self).nodes@[parent.0 as int].paragraph_text() == old(self).nodes@[parent.0 as int].paragraph_text(),
            final(self).nodes@[parent.0 as int].children() == (match old(self).nodes@[parent.0 as int] {
                UiNodeInner::Block { .. } | UiNodeInner::Tabs { .. } => old(self).nodes@[parent.0 as int].children().push((node, constraint)),
                _ => old(self).nodes@[parent.0 as int].children(),
            }),
    {
        self.nodes[parent.0].append_child(node, constraint);
        proof {
            assert forall|i: int, j: int|
                0 <= i < self.nodes@.len() && 0 <= j < self.nodes@[i].children().len() implies (
            #[trigger] self.nodes@[i].children()[j]).0 .0 < self.nodes@.len() by {
                if i != parent.0 {
                    assert(self.nodes@[i] == old(self).nodes@[i]);
                } else if j < old(self).nodes@[i].children().len() {
                    assert(self.nodes@[i].children()[j] == old(self).nodes@[i].children()[j]);
                }
            }
        }
    }

    /// Replaces the text of a paragraph; other nodes stay as they are.
    pub fn text(&mut self, node: UiNode, text: String)
        requires
            old(self).wf(),
            node.0 < old(self).nodes@.len(),
        ensures
            final(self).wf(),
            final(self).root == old(self).root,
            final(self).nodes@.len() == old(self).nodes@.len(),
            forall|i: int|
                0 <= i < old(self).nodes@.len() && i != node.0 ==> #[trigger] final(self).nodes@[i]
                    == old(self).nodes@[i],
            old(self).nodes@[node.0 as int] is Paragraph ==> final(self).nodes@[node.0 as int]
                == (UiNodeInner::Paragraph { text }),
            !(old(self).nodes@[node.0 as int] is Paragraph) ==> final(self).nodes@[node.0 as int]
                == old(self).nodes@[node.0 as int],
    {
        self.nodes[node.0].text(text);
        proof {
            assert forall|i: int, j: int|
                0 <= i < self.nodes@.len() && 0 <= j < self.nodes@[i].children().len() implies (
            #[trigger] self.nodes@[i].children()[j]).0 .0 < self.nodes@.len() by {
                if i != node.0 {
                    assert(self.nodes@[i] == old(self).nodes@[i]);
                }
            }
        }
    }

    /// Adds a paragraph of text as the last child of a node; returns the new
    /// paragraph.
    pub fn paragraph(&mut self, parent: UiNode, text: String, constraint: Constraint) -> (n: UiNode)
        requires
            old(self).wf(),
            parent.0 < old(self).nodes@.len(),
        ensures
            final(self).wf(),
            n.0 == old(self).nodes@.len(),
            final(self).nodes@.len() == old(self).nodes@.len() + 1,
            final(self).nodes@[n.0 as int] == (UiNodeInner::Paragraph { text }),
            final(self).root == old(self).root,
            final(self).nodes@[parent.0 as int].same_shape(&old(self).nodes@[parent.0 as int]),
            final(self).nodes@[parent.0 as int].paragraph_text() == old(
                self).nodes@[parent.0 as int].paragraph_text(),
            forall|i: int|
                0 <= i < old(self).nodes@.len() && i != parent.0 ==> #[trigger] final(self).nodes@[i] == old(self).nodes@[i],
            final(self).nodes@[parent.0 as int].children() == (match old(self).nodes@[parent.0 as int] {
                UiNodeInner::Block { .. } | UiNodeInner::Tabs { .. } => old(self).nodes@[parent.0 as int].children().push((n, constraint)),
                _ => old(self).nodes@[parent.0 as int].children(),
            }),
    {
        let n = self.new_node(UiNodeInner::Paragraph { text });
        self.append_child(parent, n, constraint);
        n
    }
}

/// The cells that a text box draws its text into, in order: character `i`
/// goes to column `pos.0 + (i mod 2^16) mod width` and row
/// `pos.1 + (i mod 2^16) / width`, and is left out where that lies beyond
/// the box's far corner.
pub open spec fn box_cells(pos: (u16, u16), size: (u16, u16), text: Seq<char>) -> Seq<
    (u16, u16, char),
>
    decreases text.len(),
{
    if text.len() == 0 {
        seq![]
    } else {
        let i = text.len() - 1;
        let idx = i % 65536;
        let x = pos.0 + idx % (size.0 as int);
        let y = pos.1 + idx / (size.0 as int);
        let rest = box_cells(pos, size, text.drop_last());
        if x > pos.0 + size.0 || y > pos.1 + size.1 {
            rest
        } else {
            rest.push((x as u16, y as u16, text.last()))
        }
    }
}

/// Whether a text box of `n` characters can be laid out: it has a width,
/// and neither its far corner nor any cell lies beyond the last column or
/// row there is.
pub open spec fn box_fits(pos: (u16, u16), size: (u16, u16), n: nat) -> bool {
    n > 0 ==> {
        &&& size.0 > 0
        &&& pos.0 + size.0 <= u16::MAX
        &&& pos.1 + size.1 <= u16::MAX
        &&& pos.1 + (if n < 65536 {
            n - 1
        } else {
            65535
        }) / (size.0 as int) <= u16::MAX
    }
}

/// A box of text at a position of the screen.
#[derive(Debug)]
pub struct Box {
    pub pos: (u16, u16),
    pub size: (u16, u16),
    pub z_idx: i32,
    pub content: Rope,
}

impl Box {
    pub fn new(pos: (u16, u16), size: (u16, u16), z_idx: i32, content: Rope) -> (b: Box)
        ensures
            b.pos == pos,
            b.size == size,
            b.z_idx == z_idx,
            rope_text(b.content) == rope_text(content),
    {
        Box { pos, size, z_idx, content }
    }

    /// Decides `box_fits` for this box's text.
    pub fn fits(&self) -> (b: bool)
        ensures
            b == box_fits(self.pos, self.size, rope_text(self.content).len()),
    {
        let n = rope_len_chars(&self.content);
        if n == 0 {
            return true;
        }
        if self.size.0 == 0 {
            return false;
        }
        let last: usize = if n < 65536 {
            n - 1
        } else {
            65535
        };
        let rows = (last as u16) / self.size.0;
        (self.pos.0 as u32) + (self.size.0 as u32) <= 65535 && (self.pos.1 as u32) + (
        self.size.1 as u32) <= 65535 && (self.pos.1 as u32) + (rows as u32) <= 65535
    }

    /// The cells to draw, with the character that goes into each.
    pub fn cells(&self) -> (cells: Vec<(u16, u16, char)>)
        requires
            box_fits(self.pos, self.size, rope_text(self.content).len()),
        ensures
            cells@ == box_cells(self.pos, self.size, rope_text(self.content)),
    {
        let chars = rope_chars(&self.content);
        let n = chars.len();
        let mut cells: Vec<(u16, u16, char)> = Vec::new();
        let ghost text = chars@;
        for idx in 0..n
            invariant
                n == text.len(),
                chars@ == text,
                text == rope_text(self.content),
                box_fits(self.pos, self.size, text.len()),
                cells@ == box_cells(self.pos, self.size, text.take(idx as int)),
        {
            let i = (idx % 65536) as u16;
            assert(i as int == idx % 65536);
            assert(i % self.size.0 < self.size.0);
            let x = self.pos.0 + i % self.size.0;
            assert(i as int / (self.size.0 as int) <= (if n < 65536 {
                n - 1
            } else {
                65535
            }) / (self.size.0 as int)) by (nonlinear_arith)
                requires
                    i as int <= (if n < 65536 {
                        n - 1
                    } else {
                        65535
                    }),
                    self.size.0 > 0,
            ;
            let y = self.pos.1 + i / self.size.0;
            assert(text.take(idx + 1).drop_last() =~= text.take(idx as int));
            assert(text.take(idx + 1).last() == text[idx as int]);
            if !(x > self.pos.0 + self.size.0 || y > self.pos.1 + self.size.1) {
                cells.push((x, y, chars[idx]));
            }
        }
        assert(text.take(n as int) =~= text);
        cells
    }
}

/// Something that draws frames of text.
pub trait Render: core::fmt::Debug {
    fn draw_frame(&mut self, content: String);
}

} // verus!
