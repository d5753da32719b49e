//! The tree of the dependencies, and how it is drawn.

use vstd::prelude::*;
use vstd::string::StringExecFns;

use crate::text::texts_view;

verus! {

broadcast use {
    vstd::seq::group_seq_axioms,
    vstd::std_specs::vec::group_vec_axioms,
};

/// The dependencies of a project, each with its own.
pub struct DependencyGraph {
    pub inner: Vec<DependencyNode>,
}

/// A package in its version, and what it depends on.
pub struct DependencyNode {
    pub inner: String,
    pub version: String,
    pub node: Vec<DependencyNode>,
}

/// What stands before the name of the `i`th of `n` nodes: an arrow before
/// the first, a hook before the last, a branch before the others.
pub open spec fn mark(i: int, n: int) -> Seq<char> {
    if i == 0 {
        "|->"@
    } else if i == n - 1 {
        ">  "@
    } else {
        "^-- "@
    }
}

/// The line of a node behind the padding `pad`.
pub open spec fn node_line(node: DependencyNode, pad: Seq<char>, i: int, n: int) -> Seq<char> {
    pad + mark(i, n) + node.inner@ + " "@ + node.version@
}

/// The padding of the nodes of a level: that of the level above, and a dot
/// and a space where the level hangs below a node.
pub open spec fn padding(pad: Seq<char>, is_child: bool) -> Seq<char> {
    if is_child {
        pad + ". "@
    } else {
        pad
    }
}

/// The lines of the first `upto` nodes of a level, each followed by the
/// lines of what hangs below it.
pub open spec fn level_lines(
    nodes: Seq<DependencyNode>,
    pad: Seq<char>,
    is_child: bool,
    upto: int,
) -> Seq<Seq<char>>
    decreases nodes, upto,
{
    if upto <= 0 || upto > nodes.len() {
        Seq::empty()
    } else {
        let node = nodes[upto - 1];
        level_lines(nodes, pad, is_child, upto - 1) + seq![
            node_line(node, padding(pad, is_child), upto - 1, nodes.len() as int),
        ] + level_lines(node.node@, padding(pad, is_child), true, node.node@.len() as int)
    }
}

/// Writes the lines of a level behind `lines`.
fn write_level(nodes: &Vec<DependencyNode>, pad: &str, is_child: bool, lines: &mut Vec<String>)
    ensures
        texts_view(final(lines)@) == texts_view(old(lines)@) + level_lines(
            nodes@,
            pad@,
            is_child,
            nodes@.len() as int,
        ),
    decreases nodes,
{
    let ghost before = texts_view(lines@);
    let new_pad = if is_child {
        String::from_str(pad).concat(". ")
    } else {
        String::from_str(pad)
    };
    let mut i: usize = 0;
    assert(texts_view(lines@) =~= before + level_lines(nodes@, pad@, is_child, 0));
    while i < nodes.len()
        invariant
            i <= nodes@.len(),
            new_pad@ == padding(pad@, is_child),
            texts_view(lines@) == before + level_lines(nodes@, pad@, is_child, i as int),
        decreases nodes@.len() - i,
    {
        let node = &nodes[i];
        let is_last = i == nodes.len() - 1;
        let connector = if i == 0 {
            "|->"
        } else if is_last {
            ">  "
        } else {
            "^-- "
        };
        let line = new_pad.clone().concat(connector).concat(node.inner.as_str()).concat(
            " ",
        ).concat(node.version.as_str());
        let ghost so_far = texts_view(lines@);
        lines.push(line);
        assert(texts_view(lines@) =~= so_far + seq![
            node_line(*node, new_pad@, i as int, nodes@.len() as int),
        ]);
        write_level(&node.node, new_pad.as_str(), true, lines);
        assert(texts_view(lines@) =~= before + (level_lines(nodes@, pad@, is_child, i as int)
            + seq![node_line(*node, new_pad@, i as int, nodes@.len() as int)] + level_lines(
            node.node@,
            new_pad@,
            true,
            node.node@.len() as int,
        )));
        i = i + 1;
    }
}

impl DependencyGraph {
    /// The lines that draw the tree. The first level hangs below the root
    /// where it holds at most one node.
    pub fn display_ascii_tree(&self) -> (lines: Vec<String>)
        ensures
            texts_view(lines@) == level_lines(
                self.inner@,
                " "@,
                self.inner@.len() <= 1,
                self.inner@.len() as int,
            ),
    {
        let mut lines: Vec<String> = Vec::new();
        assert(texts_view(lines@) =~= Seq::<Seq<char>>::empty());
        write_level(&self.inner, " ", self.inner.len() <= 1, &mut lines);
        lines
    }
}

} // verus!
