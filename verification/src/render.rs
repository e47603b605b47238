//! The structural printer: a syntax tree as indented lines of text, one line
//! for each node, two more spaces of indentation for each level of depth.

use vstd::prelude::*;
use vstd::string::StringExecFns;
use crate::ast::{models, AstNode, AstView};
use crate::decimal::{decimal_string, decimal_text};
use crate::chars::texts;
use crate::lexer::{name_of, token_name};
use crate::semantics::State;

verus! {

/// The indentation of depth `depth`: two spaces for each level.
pub open spec fn indentation(depth: nat) -> Seq<char>
    decreases depth,
{
    if depth == 0 {
        Seq::empty()
    } else {
        indentation((depth - 1) as nat) + "  "@
    }
}

/// The lines for a tree whose root is indented by `indent`.
///
/// The root comes first, then its children one level deeper, in order. The
/// two branches of an `if` stand two levels deeper, each under a heading one
/// level deeper: `True Branch`, `False Branch`.
pub open spec fn render(node: AstView, indent: Seq<char>) -> Seq<Seq<char>>
    decreases node, 0nat,
{
    let deeper = indent + "  "@;
    match node {
        AstView::Program(statements) => seq![indent + "Program"@] + render_from(
            statements,
            deeper,
            0,
        ),
        AstView::Assignment(name, value) => seq![indent + "Assignment: "@ + name] + render(
            *value,
            deeper,
        ),
        AstView::Output(value) => seq![indent + "Output"@] + render(*value, deeper),
        AstView::If(test, then_branch, else_branch) => seq![indent + "If"@] + render(*test, deeper)
            + seq![indent + "  True Branch"@] + render_from(then_branch, deeper + "  "@, 0)
            + seq![indent + "  False Branch"@] + render_from(else_branch, deeper + "  "@, 0),
        AstView::Loop(test, body) => seq![indent + "Loop"@] + render(*test, deeper) + render_from(
            body,
            deeper,
            0,
        ),
        AstView::BinOp(left, op, right) => seq![indent + "BinOp: "@ + token_name(op)] + render(
            *left,
            deeper,
        ) + render(*right, deeper),
        AstView::Number(value) => seq![indent + "Number: "@ + decimal_text(value as int)],
        AstView::String(text) => seq![indent + "String: "@ + text],
        AstView::Identifier(name) => seq![indent + "Identifier: "@ + name],
    }
}

/// The lines for the nodes from index `from` on, all indented by `indent`.
pub open spec fn render_from(nodes: Seq<AstView>, indent: Seq<char>, from: nat) -> Seq<Seq<char>>
    decreases nodes, nodes.len() - from,
{
    if from >= nodes.len() {
        Seq::empty()
    } else {
        render(nodes[from as int], indent) + render_from(nodes, indent, from + 1)
    }
}

/// What printing a tree gives, seen as an operation on an interpreter: the
/// lines, and the interpreter's state afterwards.
pub struct Printed {
    pub lines: Seq<Seq<char>>,
    pub state: State,
}

/// Printing `node` at depth `depth` from `state`: the lines are those of
/// [`render`], and the state is left as it was.
pub open spec fn printed(state: State, node: AstView, depth: nat) -> Printed {
    Printed { lines: render(node, indentation(depth)), state }
}

/// Appends the line `indent + label` to `lines`.
fn push_heading(lines: &mut Vec<String>, indent: &str, label: &str)
    ensures
        texts(final(lines)@) == texts(old(lines)@) + seq![indent@ + label@],
{
    let mut line = indent.to_owned();
    line.append(label);
    lines.push(line);
    assert(texts(lines@) =~= texts(old(lines)@) + seq![indent@ + label@]);
}

/// Appends the line `indent + label + detail` to `lines`.
fn push_detail(lines: &mut Vec<String>, indent: &str, label: &str, detail: &str)
    ensures
        texts(final(lines)@) == texts(old(lines)@) + seq![indent@ + label@ + detail@],
{
    let mut line = indent.to_owned();
    line.append(label);
    line.append(detail);
    lines.push(line);
    assert(texts(lines@) =~= texts(old(lines)@) + seq![indent@ + label@ + detail@]);
}

/// Appends the lines for each of `nodes`, in order.
fn render_each(nodes: &Vec<AstNode>, indent: &str, lines: &mut Vec<String>)
    ensures
        texts(final(lines)@) == texts(old(lines)@) + render_from(models(nodes@), indent@, 0),
    decreases nodes, 0nat,
{
    let mut i: usize = 0;
    while i < nodes.len()
        invariant
            i <= nodes.len(),
            texts(lines@) + render_from(models(nodes@), indent@, i as nat) == texts(old(lines)@)
                + render_from(models(nodes@), indent@, 0),
        decreases nodes.len() - i,
    {
        let ghost before = texts(lines@);
        render_into(&nodes[i], indent, lines);
        proof {
            let this = render(models(nodes@)[i as int], indent@);
            let rest = render_from(models(nodes@), indent@, (i + 1) as nat);
            assert((before + this) + rest =~= before + (this + rest));
        }
        i = i + 1;
    }
    assert(texts(lines@) + Seq::<Seq<char>>::empty() =~= texts(lines@));
}

/// Appends the lines for `node` to `lines`.
fn render_into(node: &AstNode, indent: &str, lines: &mut Vec<String>)
    ensures
        texts(final(lines)@) == texts(old(lines)@) + render(node@, indent@),
    decreases node, 1nat,
{
    let ghost start = texts(lines@);
    let mut deeper = indent.to_owned();
    deeper.append("  ");
    match node {
        AstNode::Program(statements) => {
            push_heading(lines, indent, "Program");
            render_each(statements, deeper.as_str(), lines);
            assert(texts(lines@) =~= start + render(node@, indent@));
        },
        AstNode::Assignment(name, value) => {
            push_detail(lines, indent, "Assignment: ", name.as_str());
            render_into(value, deeper.as_str(), lines);
            assert(texts(lines@) =~= start + render(node@, indent@));
        },
        AstNode::Output(value) => {
            push_heading(lines, indent, "Output");
            render_into(value, deeper.as_str(), lines);
            assert(texts(lines@) =~= start + render(node@, indent@));
        },
        AstNode::If(test, then_branch, else_branch) => {
            let mut deepest = deeper.clone();
            deepest.append("  ");
            push_heading(lines, indent, "If");
            render_into(test, deeper.as_str(), lines);
            push_heading(lines, indent, "  True Branch");
            render_each(then_branch, deepest.as_str(), lines);
            push_heading(lines, indent, "  False Branch");
            render_each(else_branch, deepest.as_str(), lines);
            assert(texts(lines@) =~= start + render(node@, indent@));
        },
        AstNode::Loop(test, body) => {
            push_heading(lines, indent, "Loop");
            render_into(test, deeper.as_str(), lines);
            render_each(body, deeper.as_str(), lines);
            assert(texts(lines@) =~= start + render(node@, indent@));
        },
        AstNode::BinOp(left, op, right) => {
            push_detail(lines, indent, "BinOp: ", name_of(op).as_str());
            render_into(left, deeper.as_str(), lines);
            render_into(right, deeper.as_str(), lines);
            assert(texts(lines@) =~= start + render(node@, indent@));
        },
        AstNode::Number(value) => {
            push_detail(lines, indent, "Number: ", decimal_string(*value).as_str());
        },
        AstNode::String(text) => {
            push_detail(lines, indent, "String: ", text.as_str());
        },
        AstNode::Identifier(name) => {
            push_detail(lines, indent, "Identifier: ", name.as_str());
        },
    }
}

/// The indentation of depth `depth`: two spaces for each level.
fn indentation_string(depth: usize) -> (indent: String)
    ensures
        indent@ == indentation(depth as nat),
{
    let mut indent = String::new();
    let mut i: usize = 0;
    while i < depth
        invariant
            i <= depth,
            indent@ == indentation(i as nat),
        decreases depth - i,
    {
        indent.append("  ");
        i = i + 1;
    }
    indent
}

/// The lines for `node` with its root at depth `depth`.
pub fn render_tree(node: &AstNode, depth: usize) -> (lines: Vec<String>)
    ensures
        texts(lines@) == render(node@, indentation(depth as nat)),
{
    let indent = indentation_string(depth);
    let mut lines: Vec<String> = Vec::new();
    render_into(node, indent.as_str(), &mut lines);
    assert(texts(lines@) =~= render(node@, indentation(depth as nat)));
    lines
}

} // verus!
