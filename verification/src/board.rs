//! Board and database decisions: a fresh board's name and columns, and which
//! schema migrations are still to be applied.

use vstd::prelude::*;

use crate::text::{chars_of, push_chars, str_eq, string_of};
use crate::types::Column;

verus! {

/// The columns a fresh board is created with, in display order.
pub const DEFAULT_COLUMN_COUNT: usize = 4;

/// The name of default column `index`.
pub open spec fn default_column_name(index: int) -> Seq<char> {
    if index == 0 {
        "Backlog"@
    } else if index == 1 {
        "In Progress"@
    } else if index == 2 {
        "Review"@
    } else {
        "Done"@
    }
}

/// Splits a path at `'/'`, remembering the last component that is neither
/// empty nor `"."` (`cur` is the component being read).
pub open spec fn last_component(s: Seq<char>, cur: Seq<char>, last: Option<Seq<char>>) -> Option<Seq<char>>
    decreases s.len(),
{
    if s.len() == 0 {
        if cur.len() > 0 && cur != seq!['.'] {
            Some(cur)
        } else {
            last
        }
    } else if s[0] == '/' {
        let next = if cur.len() > 0 && cur != seq!['.'] {
            Some(cur)
        } else {
            last
        };
        last_component(s.drop_first(), Seq::empty(), next)
    } else {
        last_component(s.drop_first(), cur.push(s[0]), last)
    }
}

/// `Path::file_name` of a Unix path: its final component, unless there is
/// none or it is `".."`.
pub open spec fn file_name_of(path: Seq<char>) -> Option<Seq<char>> {
    match last_component(path, Seq::empty(), None) {
        Some(c) => if c == seq!['.', '.'] {
            None
        } else {
            Some(c)
        },
        None => None,
    }
}

/// A fresh board's name: the project folder's name, or `"Board"`.
pub open spec fn default_board_name_of(project_path: Seq<char>) -> Seq<char> {
    match file_name_of(project_path) {
        Some(name) => name,
        None => "Board"@,
    }
}

fn is_dot(v: &Vec<char>) -> (r: bool)
    ensures
        r == (v@ == seq!['.']),
{
    if v.len() == 1 && v[0] == '.' {
        assert(v@ =~= seq!['.']);
        true
    } else {
        false
    }
}

/// The name of the board created for a workspace.
pub fn default_board_name(project_path: &str) -> (r: String)
    ensures
        r@ == default_board_name_of(project_path@),
{
    let s = chars_of(project_path);
    let mut cur: Vec<char> = Vec::new();
    let mut last: Option<Vec<char>> = None;
    let mut i: usize = 0;
    assert(s@.skip(0) =~= s@);
    while i < s.len()
        invariant
            i <= s.len(),
            last_component(s@, Seq::empty(), None) == last_component(
                s@.skip(i as int),
                cur@,
                match last {
                    Some(v) => Some(v@),
                    None => None,
                },
            ),
        decreases s.len() - i,
    {
        assert(s@.skip(i as int).drop_first() =~= s@.skip(i as int + 1));
        if s[i] == '/' {
            if cur.len() > 0 && !is_dot(&cur) {
                last = Some(cur);
            }
            cur = Vec::new();
        } else {
            cur.push(s[i]);
        }
        i += 1;
    }
    assert(s@.skip(i as int) =~= Seq::<char>::empty());
    if cur.len() > 0 && !is_dot(&cur) {
        last = Some(cur);
    }
    match last {
        Some(name) => {
            if name.len() == 2 && name[0] == '.' && name[1] == '.' {
                assert(name@ =~= seq!['.', '.']);
                "Board".to_string()
            } else {
                proof {
                    if name@ == seq!['.', '.'] {
                        assert(name@[0] == '.' && name@[1] == '.');
                    }
                }
                string_of(&name)
            }
        },
        None => "Board".to_string(),
    }
}

/// The rows of a fresh board's columns: the default names at positions
/// 0, 1, 2, 3, with the given ids.
pub fn default_columns(board_id: &str, column_ids: Vec<String>) -> (r: Vec<Column>)
    requires
        column_ids.len() == DEFAULT_COLUMN_COUNT,
    ensures
        r.len() == DEFAULT_COLUMN_COUNT,
        forall|i: int|
            0 <= i < DEFAULT_COLUMN_COUNT ==> {
                &&& (#[trigger] r@[i]).id == column_ids@[i]
                &&& r@[i].board_id@ == board_id@
                &&& r@[i].name@ == default_column_name(i)
                &&& r@[i].position == i
            },
{
    let mut ids = column_ids;
    let d = ids.pop().unwrap();
    let c = ids.pop().unwrap();
    let b = ids.pop().unwrap();
    let a = ids.pop().unwrap();
    let mut columns: Vec<Column> = Vec::new();
    columns.push(
        Column { id: a, board_id: board_id.to_string(), name: "Backlog".to_string(), position: 0 },
    );
    columns.push(
        Column {
            id: b,
            board_id: board_id.to_string(),
            name: "In Progress".to_string(),
            position: 1,
        },
    );
    columns.push(
        Column { id: c, board_id: board_id.to_string(), name: "Review".to_string(), position: 2 },
    );
    columns.push(
        Column { id: d, board_id: board_id.to_string(), name: "Done".to_string(), position: 3 },
    );
    columns
}

/// The migration versions still to apply when `current` is the highest one
/// recorded and versions `1..=count` exist: those newer than `current`,
/// oldest first.
pub open spec fn pending_versions_of(current: int, count: nat) -> Seq<int>
    decreases count,
{
    if count == 0 {
        Seq::empty()
    } else {
        let earlier = pending_versions_of(current, (count - 1) as nat);
        if count > current {
            earlier.push(count as int)
        } else {
            earlier
        }
    }
}

/// Which migrations to run when the database records `current` as its
/// highest applied version and `count` migrations exist.
pub fn pending_migrations(current: i64, count: usize) -> (r: Vec<i64>)
    requires
        count < i64::MAX,
    ensures
        r@.map_values(|v: i64| v as int) == pending_versions_of(current as int, count as nat),
{
    let mut out: Vec<i64> = Vec::new();
    let mut index: usize = 0;
    while index < count
        invariant
            index <= count < i64::MAX,
            out@.map_values(|v: i64| v as int) == pending_versions_of(current as int, index as nat),
        decreases count - index,
    {
        let version = index as i64 + 1;
        if version > current {
            out.push(version);
            assert(out@.map_values(|v: i64| v as int) =~= pending_versions_of(
                current as int,
                index as nat,
            ).push(version as int));
        }
        index += 1;
    }
    out
}

/// A migration is pending exactly when it is newer than the recorded
/// version; once every migration is recorded, none is pending, so running the
/// migrations twice applies nothing the second time.
pub proof fn lemma_pending_versions(current: int, count: nat)
    ensures
        forall|v: int|
            pending_versions_of(current, count).contains(v) <==> (current < v && 1 <= v <= count),
        current >= count ==> pending_versions_of(current, count).len() == 0,
    decreases count,
{
    if count > 0 {
        lemma_pending_versions(current, (count - 1) as nat);
        let earlier = pending_versions_of(current, (count - 1) as nat);
        if count > current {
            assert forall|v: int| pending_versions_of(current, count).contains(v) <==> (current < v
                && 1 <= v <= count) by {
                if v == count {
                    assert(earlier.push(count as int)[earlier.len() as int] == v);
                }
                if earlier.push(count as int).contains(v) && v != count {
                    let k = choose|k: int| 0 <= k < earlier.len() + 1 && earlier.push(count as int)[k] == v;
                    assert(earlier.contains(v)) by {
                        assert(earlier[k] == v);
                    }
                }
                if earlier.contains(v) {
                    let k = choose|k: int| 0 <= k < earlier.len() && earlier[k] == v;
                    assert(earlier.push(count as int)[k] == v);
                }
            }
        }
    }
}

} // verus!
