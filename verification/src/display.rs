//! The textual content of the menu panel: one display line per visible
//! row, and the breadcrumb of the navigation path.  Laying the lines out
//! on the terminal is not the library's business; their content is.

use vstd::prelude::*;
use vstd::string::StringExecFns;

use crate::app::App;
use crate::menu::{name_of, MenuNode, NodeView};
use crate::nav::{lemma_view_in_range, ViewRow};

verus! {

/// Two spaces of indentation per depth level.
pub open spec fn spec_indent(d: nat) -> Seq<char>
    decreases d,
{
    if d == 0 {
        Seq::empty()
    } else {
        spec_indent((d - 1) as nat) + "  "@
    }
}

/// The display line of one visible row: indentation, then `[x]`/`[ ]` and
/// the name for an item, or the name and a `>` marker for a group.
pub open spec fn spec_row_line(ns: Seq<NodeView>, row: ViewRow) -> Seq<char> {
    match ns[row.node as int] {
        NodeView::Item { name, selected, .. } => spec_indent(row.depth as nat) + (if selected {
            "[x] "@
        } else {
            "[ ] "@
        }) + name,
        NodeView::Menu { name, .. } => spec_indent(row.depth as nat) + name + " >"@,
    }
}

/// The lines of a whole view, row for row.
pub open spec fn spec_menu_lines(ns: Seq<NodeView>, rows: Seq<ViewRow>) -> Seq<Seq<char>> {
    rows.map_values(|r: ViewRow| spec_row_line(ns, r))
}

/// The names along the navigation path, joined by `" > "`.
pub open spec fn spec_breadcrumb(ns: Seq<NodeView>, path: Seq<usize>) -> Seq<char>
    decreases path.len(),
{
    if path.len() == 0 {
        Seq::empty()
    } else if path.len() == 1 {
        name_of(ns[path[0] as int])
    } else {
        spec_breadcrumb(ns, path.drop_last()) + " > "@ + name_of(ns[path.last() as int])
    }
}

/// Appends `depth` levels of indentation to `line`.
fn push_indent(line: &mut String, depth: usize)
    ensures
        final(line)@ == old(line)@ + spec_indent(depth as nat),
{
    let ghost base = line@;
    let mut d: usize = 0;
    while d < depth
        invariant
            d <= depth,
            line@ == base + spec_indent(d as nat),
        decreases depth - d,
    {
        line.append("  ");
        d = d + 1;
    }
    proof {
        assert(line@ =~= old(line)@ + spec_indent(depth as nat));
    }
}

impl App {
    /// The menu panel's lines for the current view: selection boxes for
    /// items, a `>` marker for groups, children indented under their
    /// group at the root.
    pub fn menu_display_lines(&self) -> (lines: Vec<String>)
        requires
            self.wf(),
        ensures
            lines.deep_view() == spec_menu_lines(self.tree@, self.spec_view()),
    {
        proof {
            lemma_view_in_range(*self);
        }
        let rows = self.visible_nodes();
        let ghost ns = self.tree@;
        let mut lines: Vec<String> = Vec::new();
        let mut k: usize = 0;
        while k < rows.len()
            invariant
                self.wf(),
                ns == self.tree@,
                rows@ == self.spec_view(),
                forall|j: int|
                    0 <= j < rows@.len() ==> ((#[trigger] rows@[j]).node as int) < ns.len(),
                k <= rows@.len(),
                lines.deep_view() =~= spec_menu_lines(ns, rows@.take(k as int)),
            decreases rows@.len() - k,
        {
            let row = rows[k];
            let mut line = String::new();
            push_indent(&mut line, row.depth);
            match &self.tree.nodes[row.node] {
                MenuNode::Item { name, selected, .. } => {
                    if *selected {
                        line.append("[x] ");
                    } else {
                        line.append("[ ] ");
                    }
                    line.append(name.as_str());
                },
                MenuNode::Menu { name, .. } => {
                    line.append(name.as_str());
                    line.append(" >");
                },
            }
            proof {
                assert(line@ =~= spec_row_line(ns, rows@[k as int]));
            }
            let ghost prev_lines = lines@;
            let ghost prev_deep = lines.deep_view();
            lines.push(line);
            proof {
                assert(prev_deep.len() == k as int);
                assert(prev_lines.len() == k as int);
                assert(lines@.len() == k as int + 1);
                assert forall|j: int|
                    0 <= j < lines.deep_view().len() implies #[trigger] lines.deep_view()[j]
                    == spec_menu_lines(ns, rows@.take(k as int + 1))[j] by {
                    assert(rows@.take(k as int + 1)[j] == rows@[j]);
                    if j < prev_lines.len() {
                        assert(lines@[j] == prev_lines[j]);
                        assert(prev_deep[j] == spec_menu_lines(ns, rows@.take(k as int))[j]);
                        assert(rows@.take(k as int)[j] == rows@[j]);
                    } else {
                        assert(lines@[j] == line);
                    }
                }
                assert(lines.deep_view() =~= spec_menu_lines(ns, rows@.take(k as int + 1)));
            }
            k = k + 1;
        }
        proof {
            assert(rows@.take(rows@.len() as int) =~= rows@);
        }
        lines
    }

    /// The breadcrumb of the navigation path, from the root to the open
    /// group, joined by `" > "`.
    pub fn breadcrumb(&self) -> (r: String)
        requires
            self.wf(),
        ensures
            r@ == spec_breadcrumb(self.tree@, self.nav_path@),
    {
        let ghost ns = self.tree@;
        let ghost path = self.nav_path@;
        let mut text = String::new();
        let mut k: usize = 0;
        while k < self.nav_path.len()
            invariant
                self.wf(),
                ns == self.tree@,
                path == self.nav_path@,
                k <= path.len(),
                text@ == spec_breadcrumb(ns, path.take(k as int)),
            decreases path.len() - k,
        {
            if k > 0 {
                text.append(" > ");
            }
            let idx = self.nav_path[k];
            match &self.tree.nodes[idx] {
                MenuNode::Item { name, .. } => {
                    text.append(name.as_str());
                },
                MenuNode::Menu { name, .. } => {
                    text.append(name.as_str());
                },
            }
            proof {
                assert(path.take(k as int + 1).drop_last() =~= path.take(k as int));
                assert(path.take(k as int + 1).last() == path[k as int]);
                assert(text@ =~= spec_breadcrumb(ns, path.take(k as int + 1)));
            }
            k = k + 1;
        }
        proof {
            assert(path.take(path.len() as int) =~= path);
        }
        text
    }
}

} // verus!
