//! Markers of list items in rendered markdown: ordered lists number their
//! items, unordered ones use a bullet that changes with the nesting depth.

use vstd::prelude::*;
use crate::validation::{decimal, u64_to_string};

verus! {

/// The bullet of an unordered list nested `depth` deep (1 for the outermost):
/// `•`, `◦` and `▪` in turn, each followed by a space.
pub open spec fn bullet(depth: int) -> Seq<char> {
    if (depth - 1) % 3 == 0 {
        "\u{2022} "@
    } else if (depth - 1) % 3 == 1 {
        "\u{25E6} "@
    } else {
        "\u{25AA} "@
    }
}

/// The marker of the next item of the innermost list of `lists`, each list
/// given as whether it is ordered and the number of its next item: the
/// number and a dot for an ordered list, else the bullet of its depth.
pub open spec fn marker_of(lists: Seq<(bool, u64)>) -> Seq<char> {
    let (ordered, n) = lists.last();
    if ordered {
        decimal(n as nat) + ". "@
    } else {
        bullet(lists.len() as int)
    }
}

/// The lists open at a point of a markdown document, innermost last.
pub struct ListMarkers {
    lists: Vec<(bool, u64)>,
}

impl ListMarkers {
    /// Each open list: whether it is ordered and the number of its next item.
    pub closed spec fn lists_spec(&self) -> Seq<(bool, u64)> {
        self.lists@
    }

    /// No list open.
    pub fn new() -> (m: Self)
        ensures
            m.lists_spec() == Seq::<(bool, u64)>::empty(),
    {
        ListMarkers { lists: Vec::new() }
    }

    /// Opens a list: ordered, numbered from `start`, when `start` is given,
    /// else unordered.
    pub fn start_list(&mut self, start: Option<u64>)
        ensures
            final(self).lists_spec() == old(self).lists_spec().push(
                match start {
                    Some(n) => (true, n),
                    None => (false, 1u64),
                },
            ),
    {
        match start {
            Some(n) => self.lists.push((true, n)),
            None => self.lists.push((false, 1)),
        }
    }

    /// Closes the innermost list, if one is open.
    pub fn end_list(&mut self)
        ensures
            final(self).lists_spec() == (if old(self).lists_spec().len() == 0 {
                old(self).lists_spec()
            } else {
                old(self).lists_spec().drop_last()
            }),
    {
        let _ = self.lists.pop();
    }

    /// How deep the innermost open list is nested (0 when none is open).
    pub fn depth(&self) -> (d: usize)
        ensures
            d == self.lists_spec().len(),
    {
        self.lists.len()
    }

    /// The marker of an item that starts now: none outside any list; in an
    /// ordered list its number, which then counts up.
    pub fn next_marker(&mut self) -> (m: Option<String>)
        requires
            old(self).lists_spec().len() > 0 && old(self).lists_spec().last().0 ==> old(
                self,
            ).lists_spec().last().1 < u64::MAX,
        ensures
            old(self).lists_spec().len() == 0 ==> m is None && final(self).lists_spec()
                == old(self).lists_spec(),
            old(self).lists_spec().len() > 0 ==> {
                let (ordered, n) = old(self).lists_spec().last();
                &&& m matches Some(t) && t@ == marker_of(old(self).lists_spec())
                &&& final(self).lists_spec() == (if ordered {
                    old(self).lists_spec().update(old(self).lists_spec().len() - 1, (true, (n + 1) as u64))
                } else {
                    old(self).lists_spec()
                })
            },
    {
        let depth = self.lists.len();
        if depth == 0 {
            return None;
        }
        let (ordered, n) = self.lists[depth - 1];
        if ordered {
            let mut t = u64_to_string(n);
            t.append(". ");
            self.lists.set(depth - 1, (true, n + 1));
            Some(t)
        } else {
            let t = if (depth - 1) % 3 == 0 {
                String::from_str("\u{2022} ")
            } else if (depth - 1) % 3 == 1 {
                String::from_str("\u{25E6} ")
            } else {
                String::from_str("\u{25AA} ")
            };
            Some(t)
        }
    }
}

} // verus!
