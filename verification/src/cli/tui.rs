//! State of the interactive inspector: panes, their lines, the selection,
//! and what each key does.
//!
//! Drawing, reading keys and (re)loading the contract are the terminal
//! front end's part; it hands each key press to [`InspectorState::handle_key`]
//! and performs the reload it asks for.
use vstd::prelude::*;

use super::output::{bool_text, edge_line, edge_line_exec, short_line, short_line_exec};
use crate::diagnostics::report::diag_views;
use crate::diagnostics::{texts, DiagnosticView, ValidationReport};
use crate::report::views::{GraphEdgeView, GraphView, InspectView};
use crate::text::{concat3, decimal, push_str, usize_string};

verus! {

/// Inspector panes, in tab order.
#[derive(Debug, Clone, Copy, PartialEq, Eq, Structural)]
pub enum Pane {
    /// Contract identity and counts.
    Overview,
    /// Step identifiers.
    Steps,
    /// Graph edges.
    Edges,
    /// Validation findings.
    Diagnostics,
    /// Planned step order.
    Plan,
}

/// Position of a pane in tab order.
pub open spec fn pane_index(p: Pane) -> nat {
    match p {
        Pane::Overview => 0,
        Pane::Steps => 1,
        Pane::Edges => 2,
        Pane::Diagnostics => 3,
        Pane::Plan => 4,
    }
}

/// The pane at a tab position, counting round.
pub open spec fn pane_at(index: nat) -> Pane {
    let i = index % 5;
    if i == 0 {
        Pane::Overview
    } else if i == 1 {
        Pane::Steps
    } else if i == 2 {
        Pane::Edges
    } else if i == 3 {
        Pane::Diagnostics
    } else {
        Pane::Plan
    }
}

impl Pane {
    /// The pane at `index` in tab order, counting round.
    pub fn from_index(index: usize) -> (r: Pane)
        ensures
            r == pane_at(index as nat),
    {
        match index % 5 {
            0 => Pane::Overview,
            1 => Pane::Steps,
            2 => Pane::Edges,
            3 => Pane::Diagnostics,
            _ => Pane::Plan,
        }
    }

    /// Position of the pane in tab order.
    pub fn index(self) -> (r: usize)
        ensures
            r == pane_index(self),
    {
        match self {
            Pane::Overview => 0,
            Pane::Steps => 1,
            Pane::Edges => 2,
            Pane::Diagnostics => 3,
            Pane::Plan => 4,
        }
    }

    /// Tab title of the pane.
    pub fn title(self) -> (r: &'static str)
        ensures
            r@ == match self {
                Pane::Overview => "Overview"@,
                Pane::Steps => "Steps"@,
                Pane::Edges => "Edges"@,
                Pane::Diagnostics => "Diagnostics"@,
                Pane::Plan => "Plan"@,
            },
    {
        match self {
            Pane::Overview => {
                proof { reveal_strlit("Overview"); }
                "Overview"
            },
            Pane::Steps => {
                proof { reveal_strlit("Steps"); }
                "Steps"
            },
            Pane::Edges => {
                proof { reveal_strlit("Edges"); }
                "Edges"
            },
            Pane::Diagnostics => {
                proof { reveal_strlit("Diagnostics"); }
                "Diagnostics"
            },
            Pane::Plan => {
                proof { reveal_strlit("Plan"); }
                "Plan"
            },
        }
    }
}

/// A key press, as far as the inspector tells keys apart.
#[derive(Debug, Clone, Copy, PartialEq, Eq, Structural)]
pub enum InspectorKey {
    /// A character key.
    Char(char),
    /// Escape.
    Esc,
    /// Tab.
    Tab,
    /// Arrow left.
    Left,
    /// Arrow right.
    Right,
    /// Arrow up.
    Up,
    /// Arrow down.
    Down,
    /// Any other key.
    Other,
}

/// What the front end does after a key press.
#[derive(Debug, Clone, Copy, PartialEq, Eq, Structural)]
pub enum KeyOutcome {
    /// Leave the inspector.
    Quit,
    /// Load the contract again and hand it to [`InspectorState::reloaded`]
    /// (or report the failure with [`InspectorState::reload_failed`]).
    Reload,
    /// Draw again and wait for the next key.
    Continue,
}

/// State of the inspector.
#[derive(Debug)]
pub struct InspectorState {
    /// Path of the inspected contract.
    pub path: String,
    /// Inspect summary.
    pub inspect: InspectView,
    /// Graph view.
    pub graph: GraphView,
    /// Validation findings.
    pub diagnostics: ValidationReport,
    /// Selected pane.
    pub pane: Pane,
    /// Selected line of the pane, when any.
    pub selected: Option<usize>,
    /// Status line.
    pub status: String,
}

/// The lines a pane lists.
pub open spec fn pane_lines(s: InspectorState) -> Seq<Seq<char>> {
    match s.pane {
        Pane::Overview => seq!["id: "@ + s.inspect.id@]
            + (match s.inspect.name { Some(n) => seq!["name: "@ + n@], None => Seq::empty() })
            + seq![
                "version: "@ + s.inspect.version@,
                "dpcsVersion: "@ + s.inspect.dpcs_version@,
                "steps: "@ + decimal(s.inspect.step_count as nat),
                "edges: "@ + decimal(s.inspect.edge_count as nat),
                "valid: "@ + bool_text(s.inspect.valid),
                "planningRefused: "@ + bool_text(s.inspect.planning_refused),
                "path: "@ + s.path@
            ],
        Pane::Steps => if s.inspect.step_ids@.len() == 0 {
            seq!["(no steps)"@]
        } else {
            texts(s.inspect.step_ids@)
        },
        Pane::Edges => if s.graph.edges@.len() == 0 {
            seq!["(no edges)"@]
        } else {
            s.graph.edges@.map_values(|e: GraphEdgeView| edge_line(e))
        },
        Pane::Diagnostics => if s.diagnostics@.len() == 0 {
            seq!["valid: no diagnostics"@]
        } else {
            s.diagnostics@.map_values(|d: DiagnosticView| short_line(d, false))
        },
        Pane::Plan => match s.inspect.step_order {
            Some(o) => if o@.len() > 0 { texts(o@) } else { seq!["(empty plan)"@] },
            None => seq!["planning: refused"@],
        },
    }
}

fn push_line(lines: &mut Vec<String>, line: String)
    ensures
        texts(final(lines)@) == texts(old(lines)@).push(line@),
{
    lines.push(line);
    assert(texts(lines@) =~= texts(old(lines)@).push(line@));
}

fn copy_lines(v: &Vec<String>) -> (r: Vec<String>)
    ensures
        texts(r@) == texts(v@),
{
    let r = crate::diagnostics::clone_strings(v);
    assert(texts(r@) =~= texts(v@));
    r
}

/// Index of the selected line after moving by `delta` in a pane of `len`
/// lines (an empty pane counts as one line), wrapping round.
pub open spec fn moved(selected: Option<usize>, delta: int, len: nat) -> nat {
    let n: int = if len == 0 { 1 } else { len as int };
    let current: int = match selected { Some(i) => i as int, None => 0 };
    ((current + delta) % n) as nat
}

impl InspectorState {
    /// A freshly loaded inspector on the overview pane, first line selected.
    pub fn new(path: String, inspect: InspectView, graph: GraphView, diagnostics: ValidationReport) -> (r: InspectorState)
        ensures
            r.path == path,
            r.inspect == inspect,
            r.graph == graph,
            r.diagnostics == diagnostics,
            r.pane == Pane::Overview,
            r.selected == Some(0usize),
            r.status@ == "loaded "@ + path@,
    {
        proof { reveal_strlit(""); }
        let status = concat3("loaded ", path.as_str(), "");
        InspectorState { path, inspect, graph, diagnostics, pane: Pane::Overview, selected: Some(0), status }
    }

    /// Take freshly loaded views after a reload: the pane stays, the first
    /// line is selected, and the status says the contract was reloaded.
    pub fn reloaded(&mut self, inspect: InspectView, graph: GraphView, diagnostics: ValidationReport)
        ensures
            final(self).path == old(self).path,
            final(self).inspect == inspect,
            final(self).graph == graph,
            final(self).diagnostics == diagnostics,
            final(self).pane == old(self).pane,
            final(self).selected == Some(0usize),
            final(self).status@ == "reloaded "@ + old(self).path@,
    {
        proof { reveal_strlit(""); }
        self.inspect = inspect;
        self.graph = graph;
        self.diagnostics = diagnostics;
        self.status = concat3("reloaded ", self.path.as_str(), "");
        self.reset_selection();
    }

    /// Report a failed reload in the status line; nothing else changes.
    pub fn reload_failed(&mut self, message: &str)
        ensures
            final(self).status@ == "reload failed: "@ + message@,
            final(self).path == old(self).path,
            final(self).inspect == old(self).inspect,
            final(self).graph == old(self).graph,
            final(self).diagnostics == old(self).diagnostics,
            final(self).pane == old(self).pane,
            final(self).selected == old(self).selected,
    {
        proof { reveal_strlit(""); }
        self.status = concat3("reload failed: ", message, "");
    }

    /// Select the first line.
    pub fn reset_selection(&mut self)
        ensures
            final(self).selected == Some(0usize),
            final(self).path == old(self).path,
            final(self).inspect == old(self).inspect,
            final(self).graph == old(self).graph,
            final(self).diagnostics == old(self).diagnostics,
            final(self).pane == old(self).pane,
            final(self).status == old(self).status,
    {
        self.selected = Some(0);
    }

    /// The lines of the selected pane.
    pub fn lines_for_pane(&self) -> (r: Vec<String>)
        ensures
            texts(r@) == pane_lines(*self),
    {
        proof { reveal_strlit(""); }
        let mut lines: Vec<String> = Vec::new();
        match self.pane {
            Pane::Overview => {
                let v = &self.inspect;
                push_line(&mut lines, concat3("id: ", v.id.as_str(), ""));
                match &v.name {
                    Some(n) => push_line(&mut lines, concat3("name: ", n.as_str(), "")),
                    None => {},
                }
                push_line(&mut lines, concat3("version: ", v.version.as_str(), ""));
                push_line(&mut lines, concat3("dpcsVersion: ", v.dpcs_version.as_str(), ""));
                push_line(&mut lines, concat3("steps: ", usize_string(v.step_count).as_str(), ""));
                push_line(&mut lines, concat3("edges: ", usize_string(v.edge_count).as_str(), ""));
                push_line(&mut lines, concat3("valid: ", if v.valid { "true" } else { "false" }, ""));
                push_line(&mut lines, concat3("planningRefused: ", if v.planning_refused { "true" } else { "false" }, ""));
                push_line(&mut lines, concat3("path: ", self.path.as_str(), ""));
                proof {
                    reveal_strlit("true");
                    reveal_strlit("false");
                }
                assert(texts(lines@) =~= pane_lines(*self));
                lines
            },
            Pane::Steps => {
                if self.inspect.step_ids.len() == 0 {
                    push_line(&mut lines, String::from_str("(no steps)"));
                    assert(texts(lines@) =~= pane_lines(*self));
                    lines
                } else {
                    copy_lines(&self.inspect.step_ids)
                }
            },
            Pane::Edges => {
                if self.graph.edges.len() == 0 {
                    push_line(&mut lines, String::from_str("(no edges)"));
                    assert(texts(lines@) =~= pane_lines(*self));
                    return lines;
                }
                let ghost all = self.graph.edges@.map_values(|e: GraphEdgeView| edge_line(e));
                let mut i: usize = 0;
                while i < self.graph.edges.len()
                    invariant
                        i <= self.graph.edges@.len(),
                        all == self.graph.edges@.map_values(|e: GraphEdgeView| edge_line(e)),
                        texts(lines@) == all.take(i as int),
                    decreases self.graph.edges.len() - i,
                {
                    push_line(&mut lines, edge_line_exec(&self.graph.edges[i]));
                    assert(all.take(i + 1) =~= all.take(i as int).push(all[i as int]));
                    i += 1;
                }
                assert(all.take(all.len() as int) =~= all);
                lines
            },
            Pane::Diagnostics => {
                let ds = &self.diagnostics.diagnostics;
                if ds.len() == 0 {
                    push_line(&mut lines, String::from_str("valid: no diagnostics"));
                    assert(texts(lines@) =~= pane_lines(*self));
                    return lines;
                }
                let ghost all = diag_views(ds@).map_values(|d: DiagnosticView| short_line(d, false));
                let mut i: usize = 0;
                while i < ds.len()
                    invariant
                        i <= ds@.len(),
                        ds == &self.diagnostics.diagnostics,
                        all == diag_views(ds@).map_values(|d: DiagnosticView| short_line(d, false)),
                        texts(lines@) == all.take(i as int),
                    decreases ds.len() - i,
                {
                    push_line(&mut lines, short_line_exec(&ds[i], false));
                    assert(all.take(i + 1) =~= all.take(i as int).push(all[i as int]));
                    i += 1;
                }
                assert(all.take(all.len() as int) =~= all);
                lines
            },
            Pane::Plan => {
                match &self.inspect.step_order {
                    Some(o) => {
                        if o.len() > 0 {
                            return copy_lines(o);
                        }
                        push_line(&mut lines, String::from_str("(empty plan)"));
                    },
                    None => push_line(&mut lines, String::from_str("planning: refused")),
                }
                assert(texts(lines@) =~= pane_lines(*self));
                lines
            },
        }
    }

    /// Move the selection by `delta` lines, wrapping round the pane.
    pub fn move_selection(&mut self, delta: isize)
        requires
            pane_lines(*old(self)).len() <= isize::MAX,
            match old(self).selected { Some(i) => i <= isize::MAX, None => true },
            (match old(self).selected { Some(i) => i as int, None => 0 }) + delta <= isize::MAX,
            (match old(self).selected { Some(i) => i as int, None => 0 }) + delta >= isize::MIN,
        ensures
            final(self).selected == Some(moved(old(self).selected, delta as int, pane_lines(*old(self)).len()) as usize),
            final(self).path == old(self).path,
            final(self).inspect == old(self).inspect,
            final(self).graph == old(self).graph,
            final(self).diagnostics == old(self).diagnostics,
            final(self).pane == old(self).pane,
            final(self).status == old(self).status,
    {
        let n = self.lines_for_pane().len();
        let len: isize = if n == 0 { 1 } else { n as isize };
        let current: isize = match self.selected {
            Some(i) => i as isize,
            None => 0,
        };
        let sum: isize = current + delta;
        let next: isize = match sum.checked_rem_euclid(len) {
            Some(v) => v,
            None => 0,
        };
        self.selected = Some(next as usize);
    }

    /// Select a pane, with its first line selected.
    pub fn set_pane(&mut self, pane: Pane)
        ensures
            final(self).pane == pane,
            final(self).selected == Some(0usize),
            final(self).path == old(self).path,
            final(self).inspect == old(self).inspect,
            final(self).graph == old(self).graph,
            final(self).diagnostics == old(self).diagnostics,
            final(self).status == old(self).status,
    {
        self.pane = pane;
        self.reset_selection();
    }

    /// Select the next pane in tab order.
    pub fn next_pane(&mut self)
        ensures
            final(self).pane == pane_at(pane_index(old(self).pane) + 1),
            final(self).selected == Some(0usize),
            final(self).path == old(self).path,
            final(self).inspect == old(self).inspect,
            final(self).graph == old(self).graph,
            final(self).diagnostics == old(self).diagnostics,
            final(self).status == old(self).status,
    {
        let p = Pane::from_index(self.pane.index() + 1);
        self.set_pane(p);
    }
    /// Act on a key press: `q`/Esc quit, `r` asks for a reload, Tab/→ and ←
    /// change pane, `1`–`5` pick a pane, ↓/`j` and ↑/`k` move the selection;
    /// other keys do nothing.
    pub fn handle_key(&mut self, key: InspectorKey) -> (r: KeyOutcome)
        requires
            pane_lines(*old(self)).len() <= isize::MAX,
            match old(self).selected { Some(i) => i < isize::MAX, None => true },
        ensures
            r == (match key {
                InspectorKey::Char('q') | InspectorKey::Esc => KeyOutcome::Quit,
                InspectorKey::Char('r') => KeyOutcome::Reload,
                _ => KeyOutcome::Continue,
            }),
            final(self).path == old(self).path,
            final(self).inspect == old(self).inspect,
            final(self).graph == old(self).graph,
            final(self).diagnostics == old(self).diagnostics,
            final(self).status == old(self).status,
            match key {
                InspectorKey::Tab | InspectorKey::Right =>
                    final(self).pane == pane_at(pane_index(old(self).pane) + 1) && final(self).selected == Some(0usize),
                InspectorKey::Left =>
                    final(self).pane == pane_at(pane_index(old(self).pane) + 4) && final(self).selected == Some(0usize),
                InspectorKey::Char('1') => final(self).pane == Pane::Overview && final(self).selected == Some(0usize),
                InspectorKey::Char('2') => final(self).pane == Pane::Steps && final(self).selected == Some(0usize),
                InspectorKey::Char('3') => final(self).pane == Pane::Edges && final(self).selected == Some(0usize),
                InspectorKey::Char('4') => final(self).pane == Pane::Diagnostics && final(self).selected == Some(0usize),
                InspectorKey::Char('5') => final(self).pane == Pane::Plan && final(self).selected == Some(0usize),
                InspectorKey::Down | InspectorKey::Char('j') => final(self).pane == old(self).pane
                    && final(self).selected == Some(moved(old(self).selected, 1, pane_lines(*old(self)).len()) as usize),
                InspectorKey::Up | InspectorKey::Char('k') => final(self).pane == old(self).pane
                    && final(self).selected == Some(moved(old(self).selected, -1, pane_lines(*old(self)).len()) as usize),
                _ => final(self).pane == old(self).pane && final(self).selected == old(self).selected,
            },
    {
        match key {
            InspectorKey::Char('q') | InspectorKey::Esc => KeyOutcome::Quit,
            InspectorKey::Char('r') => KeyOutcome::Reload,
            InspectorKey::Tab | InspectorKey::Right => {
                self.next_pane();
                KeyOutcome::Continue
            },
            InspectorKey::Left => {
                let idx = self.pane.index() + 5 - 1;
                self.set_pane(Pane::from_index(idx));
                KeyOutcome::Continue
            },
            InspectorKey::Char('1') => {
                self.set_pane(Pane::Overview);
                KeyOutcome::Continue
            },
            InspectorKey::Char('2') => {
                self.set_pane(Pane::Steps);
                KeyOutcome::Continue
            },
            InspectorKey::Char('3') => {
                self.set_pane(Pane::Edges);
                KeyOutcome::Continue
            },
            InspectorKey::Char('4') => {
                self.set_pane(Pane::Diagnostics);
                KeyOutcome::Continue
            },
            InspectorKey::Char('5') => {
                self.set_pane(Pane::Plan);
                KeyOutcome::Continue
            },
            InspectorKey::Down | InspectorKey::Char('j') => {
                self.move_selection(1);
                KeyOutcome::Continue
            },
            InspectorKey::Up | InspectorKey::Char('k') => {
                self.move_selection(-1);
                KeyOutcome::Continue
            },
            _ => KeyOutcome::Continue,
        }
    }
}

} // verus!
