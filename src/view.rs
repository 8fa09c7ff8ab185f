//! Pure helpers of the screen layout.
use vstd::prelude::*;
use crate::text::push_str;

verus! {

/// Separator between the action labels of a tab.
pub open spec fn action_spacing() -> Seq<char> {
    "\n        "@
}

pub open spec fn joined(parts: Seq<Seq<char>>, sep: Seq<char>) -> Seq<char>
    decreases parts.len(),
{
    if parts.len() == 0 {
        Seq::empty()
    } else if parts.len() == 1 {
        parts[0]
    } else {
        joined(parts.drop_last(), sep) + sep + parts.last()
    }
}

/// The action labels, one per line, indented under the first.
pub fn actions_text(actions: &[&str]) -> (r: String)
    ensures
        r@ == joined(actions@.map_values(|s: &str| s@), action_spacing()),
{
    let ghost parts = actions@.map_values(|s: &str| s@);
    let mut r = String::new();
    let mut i: usize = 0;
    while i < actions.len()
        invariant
            i <= actions.len(),
            parts == actions@.map_values(|s: &str| s@),
            r@ == joined(parts.take(i as int), action_spacing()),
        decreases actions.len() - i,
    {
        if i > 0 {
            push_str(&mut r, "\n        ");
        }
        push_str(&mut r, actions[i]);
        proof {
            let t = parts.take(i + 1);
            assert(t.drop_last() == parts.take(i as int));
            assert(t.last() == actions@[i as int]@);
            if i == 0 {
                assert(t == seq![actions@[0]@]);
            }
        }
        i = i + 1;
    }
    assert(parts.take(actions.len() as int) == parts);
    r
}

/// The rows `[start, end)` of a list of `total` rows shown in `view_height` rows, keeping
/// `selected` near the middle.
pub open spec fn window(total: nat, selected: nat, view_height: nat) -> (nat, nat) {
    if total == 0 || view_height == 0 {
        (0, 0)
    } else if total <= view_height {
        (0, total)
    } else {
        let half = view_height / 2;
        let start = if selected > half { (selected - half) as nat } else { 0 };
        let start = if start + view_height > total { (total - view_height) as nat } else { start };
        (start, start + view_height)
    }
}

pub fn visible_window(total: usize, selected: usize, view_height: usize) -> (r: (usize, usize))
    ensures
        (r.0 as nat, r.1 as nat) == window(total as nat, selected as nat, view_height as nat),
        r.0 <= r.1 <= total,
{
    if total == 0 || view_height == 0 {
        return (0, 0);
    }
    if total <= view_height {
        return (0, total);
    }
    let half = view_height / 2;
    let mut start = if selected > half {
        selected - half
    } else {
        0
    };
    if start > total - view_height {
        start = total - view_height;
    }
    (start, start + view_height)
}

} // verus!
