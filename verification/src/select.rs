//! Picker-line selection resolution.
//!
//! A listing line's leading token up to the first `": "` is the
//! machine-readable identifier of the entity on that line. The functions here
//! take the raw line the picker handed back (already stripped of its trailing
//! newline, or empty when the user cancelled) and recover that identifier, in
//! two modes: strict (the line must reference a listed entity) and
//! id-or-new-entry (free text without a `:` stands for a new workspace name).

use vstd::prelude::*;

verus! {

use vstd::string::StrSliceExecFns;
use crate::digits::all_digits;
use crate::digits::dec_val;
use crate::digits::parse_u64;
use crate::protocol::OpError;

/// Index of the first `':'` in `s`, or `s.len()` when there is none.
pub open spec fn first_colon_index(s: Seq<char>) -> int
    decreases s.len(),
{
    if s.len() == 0 {
        0
    } else if s[0] == ':' {
        0
    } else {
        1 + first_colon_index(s.skip(1))
    }
}

/// The identifier prefix of a listing line: everything before the first
/// `':'`, or the whole line when it has no `':'`.
pub open spec fn sel_prefix(s: Seq<char>) -> Seq<char> {
    s.take(first_colon_index(s))
}

/// Whether the line contains a `':'` at all.
pub open spec fn has_colon(s: Seq<char>) -> bool {
    exists|i: int| 0 <= i < s.len() && s[i] == ':'
}

/// The numeric id a line references in strict-id mode: its identifier
/// prefix read as decimal, or nothing when that prefix is not a number.
pub open spec fn strict_id_of_line(line: Seq<char>) -> Option<u64> {
    let p = sel_prefix(line);
    if p.len() > 0 && all_digits(p) && dec_val(p) <= u64::MAX {
        Some((dec_val(p) as u64))
    } else {
        None
    }
}

/// `first_colon_index` points at the first `':'`: nothing before it is a
/// `':'`, and it stays inside the sequence exactly when one occurs at all.
pub proof fn lemma_first_colon_index_props(s: Seq<char>)
    ensures
        0 <= first_colon_index(s) <= s.len(),
        forall|j: int| 0 <= j < first_colon_index(s) ==> s[j] != ':',
        first_colon_index(s) < s.len() ==> s[first_colon_index(s)] == ':',
        has_colon(s) <==> first_colon_index(s) < s.len(),
    decreases s.len(),
{
    if s.len() == 0 {
    } else if s[0] == ':' {
    } else {
        lemma_first_colon_index_props(s.skip(1));
        let f = first_colon_index(s);
        assert(f == 1 + first_colon_index(s.skip(1)));
        assert forall|j: int| 0 <= j < f implies s[j] != ':' by {
            if j > 0 {
                assert(s.skip(1)[j - 1] == s[j]);
            }
        }
        if f < s.len() {
            assert(s.skip(1)[f - 1] == s[f]);
        }
        if has_colon(s) {
            let w = choose|i: int| 0 <= i < s.len() && s[i] == ':';
            assert(w > 0);
            assert(s.skip(1)[w - 1] == ':');
            assert(has_colon(s.skip(1)));
        }
        if has_colon(s.skip(1)) {
            let w = choose|i: int| 0 <= i < s.skip(1).len() && s.skip(1)[i] == ':';
            assert(s[w + 1] == ':');
            assert(has_colon(s));
        }
    }
}

/// A position that has no `':'` before it and a `':'` (or the end) at it is
/// exactly `first_colon_index`.
pub proof fn lemma_first_colon_index_at(s: Seq<char>, i: int)
    requires
        0 <= i <= s.len(),
        forall|j: int| 0 <= j < i ==> s[j] != ':',
        i == s.len() || s[i] == ':',
    ensures
        first_colon_index(s) == i,
    decreases s.len(),
{
    if s.len() == 0 {
    } else if s[0] == ':' {
        assert(i == 0);
    } else {
        assert(i >= 1);
        assert forall|j: int| 0 <= j < i - 1 implies s.skip(1)[j] != ':' by {
            assert(s.skip(1)[j] == s[j + 1]);
        }
        if i < s.len() {
            assert(s.skip(1)[i - 1] == s[i]);
        }
        lemma_first_colon_index_at(s.skip(1), i - 1);
    }
}

/// The identifier prefix of a line assembled from a colon-free identifier
/// and a rest that opens with `':'` is that identifier, exactly.
pub proof fn lemma_sel_prefix_of_composed(a: Seq<char>, b: Seq<char>)
    requires
        forall|i: int| 0 <= i < a.len() ==> a[i] != ':',
        b.len() > 0,
        b[0] == ':',
    ensures
        sel_prefix(a + b) == a,
        has_colon(a + b),
{
    let s = a + b;
    assert forall|j: int| 0 <= j < a.len() implies s[j] != ':' by {
        assert(s[j] == a[j]);
    }
    assert(s[a.len() as int] == b[0]);
    lemma_first_colon_index_at(s, a.len() as int);
    assert(s.take(a.len() as int) =~= a);
    lemma_first_colon_index_props(s);
}

fn find_colon(line: &str) -> (r: usize)
    ensures
        r as int == first_colon_index(line@),
{
    let len = line.unicode_len();
    let mut i: usize = 0;
    while i < len
        invariant
            0 <= i <= len,
            len as nat == line@.len(),
            forall|j: int| 0 <= j < i ==> line@[j] != ':',
        decreases len - i,
    {
        let c = line.get_char(i);
        if c == ':' {
            proof {
                lemma_first_colon_index_at(line@, i as int);
            }
            return i;
        }
        i = i + 1;
    }
    proof {
        lemma_first_colon_index_at(line@, len as int);
    }
    len
}

/// The identifier prefix of the picked line: the text before the first
/// `':'` (the whole line when it has none).
pub fn fuzzel_get_selection_id(line: &str) -> (r: String)
    ensures
        r@ == sel_prefix(line@),
{
    let i = find_colon(line);
    proof {
        lemma_first_colon_index_props(line@);
    }
    let p = line.substring_char(0, i);
    proof {
        assert(p@ =~= sel_prefix(line@));
    }
    p.to_owned()
}

/// The identifier prefix when the picked line references a listed entity
/// (it contains a `':'`), or the untouched line as a new entry otherwise.
pub fn fuzzel_get_selection_id_or_entry(line: &str) -> (r: String)
    ensures
        r@ == if has_colon(line@) {
            sel_prefix(line@)
        } else {
            line@
        },
{
    let len = line.unicode_len();
    let i = find_colon(line);
    proof {
        lemma_first_colon_index_props(line@);
    }
    if i < len {
        let p = line.substring_char(0, i);
        proof {
            assert(p@ =~= sel_prefix(line@));
        }
        p.to_owned()
    } else {
        line.to_owned()
    }
}

/// The classification of one line of picker output.
#[derive(Debug, Clone, PartialEq, Eq)]
pub enum Selection {
    /// Empty picker output: the user cancelled, and no action follows.
    NoSelection,
    /// The line references a listed entity by its embedded numeric id.
    Identified(u64),
    /// The line is free text that references no listed entity.
    FreeText(String),
}

/// Strict-id resolution: an empty line is a cancellation; otherwise the
/// identifier prefix must parse as a numeric id.
pub fn resolve_strict_id(line: &str) -> (r: Result<Option<u64>, OpError>)
    ensures
        line@.len() == 0 ==> r == Ok::<Option<u64>, OpError>(None),
        line@.len() > 0 ==> match strict_id_of_line(line@) {
            Some(id) => r == Ok::<Option<u64>, OpError>(Some(id)),
            None => r == Err::<Option<u64>, OpError>(OpError::SelectionParse),
        },
{
    if line.unicode_len() == 0 {
        return Ok(None);
    }
    let p = fuzzel_get_selection_id(line);
    match parse_u64(p.as_str()) {
        Some(v) => Ok(Some(v)),
        None => Err(OpError::SelectionParse),
    }
}

/// Id-or-new-entry resolution: an empty line is a cancellation; a line with
/// a `':'` must reference a listed entity by numeric id; a line without one
/// is free text naming a workspace that is not in the listing.
pub fn resolve_id_or_entry(line: &str) -> (r: Result<Selection, OpError>)
    ensures
        line@.len() == 0 ==> r == Ok::<Selection, OpError>(Selection::NoSelection),
        line@.len() > 0 && has_colon(line@) ==> match strict_id_of_line(line@) {
            Some(id) => r == Ok::<Selection, OpError>(Selection::Identified(id)),
            None => r == Err::<Selection, OpError>(OpError::SelectionParse),
        },
        line@.len() > 0 && !has_colon(line@) ==> (r matches Ok(Selection::FreeText(t)) && t@
            == line@),
{
    let len = line.unicode_len();
    if len == 0 {
        return Ok(Selection::NoSelection);
    }
    let i = find_colon(line);
    proof {
        lemma_first_colon_index_props(line@);
    }
    if i < len {
        let p = line.substring_char(0, i);
        proof {
            assert(p@ =~= sel_prefix(line@));
        }
        match parse_u64(p) {
            Some(v) => Ok(Selection::Identified(v)),
            None => Err(OpError::SelectionParse),
        }
    } else {
        Ok(Selection::FreeText(line.to_owned()))
    }
}

} // verus!
