//! Entity listing formatting.
//!
//! Each entity kind becomes one display line whose leading token up to the
//! first `": "` is its machine-readable identifier: the numeric id for
//! windows and workspaces, the output name for outputs. Windows and outputs
//! keep their listing order; workspaces are sorted ascending by index first.

use vstd::prelude::*;

verus! {

use vstd::string::StrSliceExecFns;
use vstd::string::StringExecFns;
use crate::digits::all_digits;
use crate::digits::dec_digits;
use crate::digits::dec_val;
use crate::digits::is_digit;
use crate::digits::lemma_dec_digits_shape;
use crate::digits::lemma_dec_val_of_digits;
use crate::digits::u64_to_dec;
use crate::protocol::OutputInfo;
use crate::protocol::Response;
use crate::protocol::WindowInfo;
use crate::protocol::WorkspaceInfo;
use crate::select::has_colon;
use crate::select::lemma_sel_prefix_of_composed;
use crate::select::sel_prefix;
use crate::select::strict_id_of_line;

/// The text of an optional field, or the placeholder when it is absent.
pub open spec fn opt_text(o: Option<String>, placeholder: Seq<char>) -> Seq<char> {
    match o {
        Some(t) => t@,
        None => placeholder,
    }
}

/// A window's listing line: `"<id>: <title or 'Unknown'>"`.
pub open spec fn window_line(w: WindowInfo) -> Seq<char> {
    dec_digits(w.id as nat) + ": "@ + opt_text(w.title, "Unknown"@)
}

/// A workspace's listing line: `"<id>: <name or '<unnamed>'> (<index>)"`.
pub open spec fn workspace_line(w: WorkspaceInfo) -> Seq<char> {
    dec_digits(w.id as nat) + ": "@ + opt_text(w.name, "<unnamed>"@) + " ("@ + dec_digits(
        w.idx as nat,
    ) + ")"@
}

/// An output's listing line: `"<name>: <make> <model> <serial or '<unknown>'>"`.
pub open spec fn output_line(o: OutputInfo) -> Seq<char> {
    o.name@ + ": "@ + o.make@ + " "@ + o.model@ + " "@ + opt_text(o.serial, "<unknown>"@)
}

/// Format one window.
pub fn format_window_line(w: &WindowInfo) -> (r: String)
    ensures
        r@ == window_line(*w),
{
    let mut line = u64_to_dec(w.id);
    line.append(": ");
    match &w.title {
        Some(t) => line.append(t.as_str()),
        None => line.append("Unknown"),
    }
    proof {
        assert(line@ =~= window_line(*w));
    }
    line
}

/// Format one workspace.
pub fn format_workspace_line(w: &WorkspaceInfo) -> (r: String)
    ensures
        r@ == workspace_line(*w),
{
    let mut line = u64_to_dec(w.id);
    line.append(": ");
    match &w.name {
        Some(n) => line.append(n.as_str()),
        None => line.append("<unnamed>"),
    }
    line.append(" (");
    let idx = u64_to_dec(w.idx as u64);
    line.append(idx.as_str());
    line.append(")");
    proof {
        assert(line@ =~= workspace_line(*w));
    }
    line
}

/// Format one output.
pub fn format_output_line(o: &OutputInfo) -> (r: String)
    ensures
        r@ == output_line(*o),
{
    let mut line = o.name.clone();
    line.append(": ");
    line.append(o.make.as_str());
    line.append(" ");
    line.append(o.model.as_str());
    line.append(" ");
    match &o.serial {
        Some(s) => line.append(s.as_str()),
        None => line.append("<unknown>"),
    }
    proof {
        assert(line@ =~= output_line(*o));
    }
    line
}

/// Format a window listing, in the order the manager returned it.
pub fn format_windows(v: &Vec<WindowInfo>) -> (r: Vec<String>)
    ensures
        r@.len() == v@.len(),
        forall|i: int| 0 <= i < v@.len() ==> #[trigger] r@[i]@ == window_line(v@[i]),
{
    let mut r: Vec<String> = Vec::new();
    let mut i: usize = 0;
    while i < v.len()
        invariant
            0 <= i <= v@.len(),
            r@.len() == i,
            forall|j: int| 0 <= j < i ==> #[trigger] r@[j]@ == window_line(v@[j]),
        decreases v@.len() - i,
    {
        r.push(format_window_line(&v[i]));
        i = i + 1;
    }
    r
}

/// Format a workspace listing; the input is expected already sorted.
pub fn format_workspaces(v: &Vec<WorkspaceInfo>) -> (r: Vec<String>)
    ensures
        r@.len() == v@.len(),
        forall|i: int| 0 <= i < v@.len() ==> #[trigger] r@[i]@ == workspace_line(v@[i]),
{
    let mut r: Vec<String> = Vec::new();
    let mut i: usize = 0;
    while i < v.len()
        invariant
            0 <= i <= v@.len(),
            r@.len() == i,
            forall|j: int| 0 <= j < i ==> #[trigger] r@[j]@ == workspace_line(v@[j]),
        decreases v@.len() - i,
    {
        r.push(format_workspace_line(&v[i]));
        i = i + 1;
    }
    r
}

/// Format an output listing, in the order the mapping was walked.
pub fn format_outputs(v: &Vec<OutputInfo>) -> (r: Vec<String>)
    ensures
        r@.len() == v@.len(),
        forall|i: int| 0 <= i < v@.len() ==> #[trigger] r@[i]@ == output_line(v@[i]),
{
    let mut r: Vec<String> = Vec::new();
    let mut i: usize = 0;
    while i < v.len()
        invariant
            0 <= i <= v@.len(),
            r@.len() == i,
            forall|j: int| 0 <= j < i ==> #[trigger] r@[j]@ == output_line(v@[j]),
        decreases v@.len() - i,
    {
        r.push(format_output_line(&v[i]));
        i = i + 1;
    }
    r
}

/// The workspaces stand in ascending index order.
pub open spec fn sorted_by_idx(s: Seq<WorkspaceInfo>) -> bool {
    forall|i: int, j: int| 0 <= i < j < s.len() ==> #[trigger] s[i].idx <= #[trigger] s[j].idx
}

/// Sort a workspace listing ascending by index. The result is a permutation
/// of the input: the same workspaces, reordered.
pub fn sort_workspaces(v: Vec<WorkspaceInfo>) -> (r: Vec<WorkspaceInfo>)
    ensures
        r@.len() == v@.len(),
        sorted_by_idx(r@),
        r@.to_multiset() == v@.to_multiset(),
{
    broadcast use vstd::seq_lib::group_to_multiset_ensures;

    let mut r = v;
    if r.len() <= 1 {
        return r;
    }
    let ghost orig = r@;
    let mut i: usize = 1;
    while i < r.len()
        invariant
            1 <= i <= r@.len(),
            r@.len() == orig.len(),
            sorted_by_idx(r@.take(i as int)),
            r@.to_multiset() == orig.to_multiset(),
        decreases r@.len() - i,
    {
        let ghost before = r@;
        let x = r.remove(i);
        let ghost mid = r@;
        let mut pos: usize = 0;
        while pos < i && r[pos].idx <= x.idx
            invariant
                pos <= i,
                i < before.len(),
                r@ == mid,
                mid == before.remove(i as int),
                forall|j: int| 0 <= j < pos ==> #[trigger] mid[j].idx <= x.idx,
            decreases i - pos,
        {
            pos = pos + 1;
        }
        r.insert(pos, x);
        proof {
            let after = r@;
            assert(after == mid.insert(pos as int, x));
            assert(after.to_multiset() == orig.to_multiset()) by {
                vstd::seq_lib::to_multiset_remove(before, i as int);
                vstd::seq_lib::to_multiset_insert(mid, pos as int, x);
                vstd::seq_lib::to_multiset_contains(before, x);
                assert(before.contains(x)) by {
                    assert(before[i as int] == x);
                }
                assert(after.to_multiset() =~= before.to_multiset());
            }
            assert(sorted_by_idx(after.take(i as int + 1))) by {
                let p = after.take(i as int + 1);
                assert forall|a: int, b: int| 0 <= a < b < p.len() implies #[trigger] p[a].idx
                    <= #[trigger] p[b].idx by {
                    assert(forall|j: int| 0 <= j < i ==> #[trigger] mid[j] == before[j]);
                    assert(forall|j: int| 0 <= j < pos ==> #[trigger] p[j] == mid[j]);
                    assert(p[pos as int] == x);
                    assert(forall|j: int| pos < j < p.len() ==> #[trigger] p[j] == mid[j - 1]);
                    if pos < i {
                        assert(mid[pos as int].idx > x.idx);
                    }
                    assert(sorted_by_idx(before.take(i as int)));
                }
            }
        }
        i = i + 1;
    }
    proof {
        if r@.len() >= 1 {
            assert(r@.take(r@.len() as int) =~= r@);
        }
    }
    r
}

/// The windows carried by a query result; any other payload lists nothing.
pub fn windows_of_response(resp: Option<Response>) -> (r: Vec<WindowInfo>)
    ensures
        match resp {
            Some(Response::Windows(v)) => r == v,
            _ => r@ == Seq::<WindowInfo>::empty(),
        },
{
    match resp {
        Some(Response::Windows(v)) => v,
        _ => Vec::new(),
    }
}

/// The workspaces carried by a query result; any other payload lists nothing.
pub fn workspaces_of_response(resp: Option<Response>) -> (r: Vec<WorkspaceInfo>)
    ensures
        match resp {
            Some(Response::Workspaces(v)) => r == v,
            _ => r@ == Seq::<WorkspaceInfo>::empty(),
        },
{
    match resp {
        Some(Response::Workspaces(v)) => v,
        _ => Vec::new(),
    }
}

/// The outputs carried by a query result; any other payload lists nothing.
pub fn outputs_of_response(resp: Option<Response>) -> (r: Vec<OutputInfo>)
    ensures
        match resp {
            Some(Response::Outputs(v)) => r == v,
            _ => r@ == Seq::<OutputInfo>::empty(),
        },
{
    match resp {
        Some(Response::Outputs(v)) => v,
        _ => Vec::new(),
    }
}

/// Round trip for windows: the identifier prefix of a window's listing line
/// is exactly the window's id in decimal, and parses back to the id.
pub proof fn lemma_window_line_round_trip(w: WindowInfo)
    ensures
        has_colon(window_line(w)),
        sel_prefix(window_line(w)) == dec_digits(w.id as nat),
        sel_prefix(window_line(w)).len() > 0,
        all_digits(sel_prefix(window_line(w))),
        dec_val(sel_prefix(window_line(w))) == w.id as nat,
        strict_id_of_line(window_line(w)) == Some(w.id),
{
    let a = dec_digits(w.id as nat);
    let b = ": "@ + opt_text(w.title, "Unknown"@);
    lemma_dec_digits_shape(w.id as nat);
    lemma_dec_val_of_digits(w.id as nat);
    reveal_strlit(": ");
    assert(b[0] == ':');
    assert forall|i: int| 0 <= i < a.len() implies a[i] != ':' by {
        assert(is_digit(a[i]));
    }
    lemma_sel_prefix_of_composed(a, b);
    assert(window_line(w) =~= a + b);
}

/// Round trip for workspaces: the identifier prefix of a workspace's listing
/// line is exactly the workspace's id in decimal, and parses back to the id.
pub proof fn lemma_workspace_line_round_trip(w: WorkspaceInfo)
    ensures
        has_colon(workspace_line(w)),
        sel_prefix(workspace_line(w)) == dec_digits(w.id as nat),
        sel_prefix(workspace_line(w)).len() > 0,
        all_digits(sel_prefix(workspace_line(w))),
        dec_val(sel_prefix(workspace_line(w))) == w.id as nat,
        strict_id_of_line(workspace_line(w)) == Some(w.id),
{
    let a = dec_digits(w.id as nat);
    let b = ": "@ + opt_text(w.name, "<unnamed>"@) + " ("@ + dec_digits(w.idx as nat) + ")"@;
    lemma_dec_digits_shape(w.id as nat);
    lemma_dec_val_of_digits(w.id as nat);
    reveal_strlit(": ");
    assert(b[0] == ':');
    assert forall|i: int| 0 <= i < a.len() implies a[i] != ':' by {
        assert(is_digit(a[i]));
    }
    lemma_sel_prefix_of_composed(a, b);
    assert(workspace_line(w) =~= a + b);
}

/// Round trip for outputs: as long as the output's name holds no `':'`, the
/// identifier prefix of its listing line is exactly the name.
pub proof fn lemma_output_line_round_trip(o: OutputInfo)
    requires
        forall|i: int| 0 <= i < o.name@.len() ==> o.name@[i] != ':',
    ensures
        has_colon(output_line(o)),
        sel_prefix(output_line(o)) == o.name@,
{
    let a = o.name@;
    let b = ": "@ + o.make@ + " "@ + o.model@ + " "@ + opt_text(o.serial, "<unknown>"@);
    reveal_strlit(": ");
    assert(b[0] == ':');
    lemma_sel_prefix_of_composed(a, b);
    assert(output_line(o) =~= a + b);
}

} // verus!
