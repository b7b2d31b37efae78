//! Small shared pieces of the sidebar components: chips, hit targets, modal
//! states, code block bookkeeping and the scrollable-item interface.

use vstd::prelude::*;
use crate::text::string_push;

verus! {

/// Size of a chip.
#[derive(Debug, Clone, Copy, PartialEq, Eq, Structural)]
pub enum ChipSize {
    Small,
    Medium,
    Large,
}

/// A chip: a small label that can be selected, closed or clicked.
pub struct Chip {
    label: String,
    size: ChipSize,
    icon: Option<String>,
    closeable: bool,
    clickable: bool,
    selected: bool,
    hovering: bool,
}

impl Chip {
    pub closed spec fn label_spec(&self) -> Seq<char> {
        self.label@
    }

    pub closed spec fn size_spec(&self) -> ChipSize {
        self.size
    }

    pub closed spec fn icon_spec(&self) -> Option<Seq<char>> {
        match self.icon {
            Some(i) => Some(i@),
            None => None,
        }
    }

    pub closed spec fn closeable_spec(&self) -> bool {
        self.closeable
    }

    pub closed spec fn clickable_spec(&self) -> bool {
        self.clickable
    }

    pub closed spec fn selected_spec(&self) -> bool {
        self.selected
    }

    pub closed spec fn hovering_spec(&self) -> bool {
        self.hovering
    }

    /// Everything but the selection is as in `other`.
    pub open spec fn same_look(&self, other: &Chip) -> bool {
        &&& self.label_spec() == other.label_spec()
        &&& self.size_spec() == other.size_spec()
        &&& self.icon_spec() == other.icon_spec()
        &&& self.closeable_spec() == other.closeable_spec()
        &&& self.clickable_spec() == other.clickable_spec()
        &&& self.hovering_spec() == other.hovering_spec()
    }

    /// A medium, unselected chip with the given label.
    pub fn new(label: String) -> (c: Self)
        ensures
            c.label_spec() == label@,
            c.size_spec() == ChipSize::Medium,
            c.icon_spec() is None,
            !c.closeable_spec(),
            !c.clickable_spec(),
            !c.selected_spec(),
            !c.hovering_spec(),
    {
        Chip { label, size: ChipSize::Medium, icon: None, closeable: false, clickable: false, selected: false, hovering: false }
    }

    pub fn with_size(self, size: ChipSize) -> (c: Self)
        ensures
            c.size_spec() == size,
            c.label_spec() == self.label_spec(),
            c.icon_spec() == self.icon_spec(),
            c.closeable_spec() == self.closeable_spec(),
            c.clickable_spec() == self.clickable_spec(),
            c.selected_spec() == self.selected_spec(),
            c.hovering_spec() == self.hovering_spec(),
    {
        let mut c = self;
        c.size = size;
        c
    }

    pub fn with_icon(self, icon: String) -> (c: Self)
        ensures
            c.icon_spec() == Some(icon@),
            c.label_spec() == self.label_spec(),
            c.size_spec() == self.size_spec(),
            c.closeable_spec() == self.closeable_spec(),
            c.clickable_spec() == self.clickable_spec(),
            c.selected_spec() == self.selected_spec(),
            c.hovering_spec() == self.hovering_spec(),
    {
        let mut c = self;
        c.icon = Some(icon);
        c
    }

    pub fn closeable(self, closeable: bool) -> (c: Self)
        ensures
            c.closeable_spec() == closeable,
            c.label_spec() == self.label_spec(),
            c.size_spec() == self.size_spec(),
            c.icon_spec() == self.icon_spec(),
            c.clickable_spec() == self.clickable_spec(),
            c.selected_spec() == self.selected_spec(),
            c.hovering_spec() == self.hovering_spec(),
    {
        let mut c = self;
        c.closeable = closeable;
        c
    }

    pub fn clickable(self, clickable: bool) -> (c: Self)
        ensures
            c.clickable_spec() == clickable,
            c.label_spec() == self.label_spec(),
            c.size_spec() == self.size_spec(),
            c.icon_spec() == self.icon_spec(),
            c.closeable_spec() == self.closeable_spec(),
            c.selected_spec() == self.selected_spec(),
            c.hovering_spec() == self.hovering_spec(),
    {
        let mut c = self;
        c.clickable = clickable;
        c
    }

    pub fn selected(self, selected: bool) -> (c: Self)
        ensures
            c.selected_spec() == selected,
            c.same_look(&self),
    {
        let mut c = self;
        c.selected = selected;
        c
    }

    pub fn set_hovering(&mut self, hovering: bool)
        ensures
            final(self).hovering_spec() == hovering,
            final(self).selected_spec() == old(self).selected_spec(),
            final(self).label_spec() == old(self).label_spec(),
            final(self).size_spec() == old(self).size_spec(),
            final(self).icon_spec() == old(self).icon_spec(),
            final(self).closeable_spec() == old(self).closeable_spec(),
            final(self).clickable_spec() == old(self).clickable_spec(),
    {
        self.hovering = hovering;
    }

    pub fn toggle_selected(&mut self)
        ensures
            final(self).selected_spec() == !old(self).selected_spec(),
            final(self).same_look(old(self)),
    {
        self.selected = !self.selected;
    }

    /// Whether the chip is selected.
    pub fn is_selected(&self) -> (b: bool)
        ensures
            b == self.selected_spec(),
    {
        self.selected
    }

    /// The texts the chip shows, in order: the icon followed by a space (if
    /// any), the label, and a close mark (if closeable).
    pub fn render(&self) -> (v: Vec<String>)
        ensures
            v@.map_values(|t: String| t@) == (match self.icon_spec() {
                Some(i) => seq![i.push(' ')],
                None => Seq::empty(),
            }) + seq![self.label_spec()] + (if self.closeable_spec() {
                seq![seq![' ', '\u{00D7}']]
            } else {
                Seq::empty()
            }),
    {
        let ghost icon_part: Seq<Seq<char>> = match self.icon_spec() {
            Some(i) => seq![i.push(' ')],
            None => Seq::empty(),
        };
        let ghost close_part: Seq<Seq<char>> = if self.closeable_spec() {
            seq![seq![' ', '\u{00D7}']]
        } else {
            Seq::empty()
        };
        let mut v: Vec<String> = Vec::new();
        match &self.icon {
            Some(i) => {
                let mut t = i.clone();
                string_push(&mut t, ' ');
                v.push(t);
            },
            None => {},
        }
        assert(v@.map_values(|t: String| t@) =~= icon_part);
        let ghost before = v@;
        v.push(self.label.clone());
        assert(v@.map_values(|t: String| t@) =~= icon_part + seq![self.label_spec()]) by {
            assert(v@ == before.push(self.label));
        }
        let ghost middle = v@;
        if self.closeable {
            let mut t = String::new();
            string_push(&mut t, ' ');
            string_push(&mut t, '\u{00D7}');
            assert(t@ =~= seq![' ', '\u{00D7}']);
            v.push(t);
            assert(v@ == middle.push(t));
        }
        assert(v@.map_values(|t: String| t@) =~= icon_part + seq![self.label_spec()] + close_part);
        v
    }

    fn set_selected(&mut self, selected: bool)
        ensures
            final(self).selected_spec() == selected,
            final(self).same_look(old(self)),
    {
        self.selected = selected;
    }
}

/// Indices below `k` of the selected chips, in order.
pub open spec fn selected_indices(chips: Seq<Chip>, k: int) -> Seq<usize>
    decreases k,
{
    if k <= 0 {
        Seq::empty()
    } else if chips[k - 1].selected_spec() {
        selected_indices(chips, k - 1).push((k - 1) as usize)
    } else {
        selected_indices(chips, k - 1)
    }
}

/// A row of chips, selected one at a time or several at once.
pub struct ChipGroup {
    chips: Vec<Chip>,
    multi_select: bool,
}

impl ChipGroup {
    pub closed spec fn chips_spec(&self) -> Seq<Chip> {
        self.chips@
    }

    pub closed spec fn multi_select_spec(&self) -> bool {
        self.multi_select
    }

    pub fn new() -> (g: Self)
        ensures
            g.chips_spec().len() == 0,
            !g.multi_select_spec(),
    {
        ChipGroup { chips: Vec::new(), multi_select: false }
    }

    pub fn with_multi_select(self, multi_select: bool) -> (g: Self)
        ensures
            g.multi_select_spec() == multi_select,
            g.chips_spec() == self.chips_spec(),
    {
        let mut g = self;
        g.multi_select = multi_select;
        g
    }

    pub fn add_chip(&mut self, chip: Chip)
        ensures
            final(self).chips_spec() == old(self).chips_spec().push(chip),
            final(self).multi_select_spec() == old(self).multi_select_spec(),
    {
        self.chips.push(chip);
    }

    /// `after` is this group once chip `index` has been clicked, `clicked`
    /// telling whether there is such a chip: with several allowed it toggles,
    /// otherwise it alone is selected; nothing else about the chips changes.
    pub open spec fn clicked_as(&self, index: usize, clicked: bool, after: &ChipGroup) -> bool {
        &&& clicked == (index < self.chips_spec().len())
        &&& after.multi_select_spec() == self.multi_select_spec()
        &&& after.chips_spec().len() == self.chips_spec().len()
        &&& forall|i: int| 0 <= i < self.chips_spec().len() ==> (#[trigger] after.chips_spec()[i]).same_look(&self.chips_spec()[i])
        &&& forall|i: int| 0 <= i < self.chips_spec().len() ==> (#[trigger] after.chips_spec()[i]).selected_spec() == (if !clicked {
                self.chips_spec()[i].selected_spec()
            } else if self.multi_select_spec() {
                if i == index { !self.chips_spec()[i].selected_spec() } else { self.chips_spec()[i].selected_spec() }
            } else {
                i == index
            })
    }

    /// A click on chip `index`: toggles it when several may be selected,
    /// otherwise selects it alone. Returns whether there was such a chip
    /// (whose click action then runs).
    pub fn handle_chip_click(&mut self, index: usize) -> (clicked: bool)
        ensures
            old(self).clicked_as(index, clicked, final(self)),
    {
        if index >= self.chips.len() {
            return false;
        }
        if self.multi_select {
            let mut chip = self.chips.remove(index);
            chip.toggle_selected();
            self.chips.insert(index, chip);
        } else {
            let mut i: usize = 0;
            let n = self.chips.len();
            while i < n
                invariant
                    n == self.chips@.len(),
                    n == old(self).chips@.len(),
                    i <= n,
                    index < n,
                    self.multi_select == old(self).multi_select,
                    forall|j: int| 0 <= j < n ==> (#[trigger] self.chips@[j]).same_look(&old(self).chips@[j]),
                    forall|j: int| 0 <= j < i ==> (#[trigger] self.chips@[j]).selected_spec() == (j == index),
                    forall|j: int| i <= j < n ==> #[trigger] self.chips@[j] == old(self).chips@[j],
                decreases n - i,
            {
                let ghost before = self.chips@;
                let mut chip = self.chips.remove(i);
                chip.set_selected(i == index);
                self.chips.insert(i, chip);
                proof {
                    assert forall|j: int| 0 <= j < n && j != i implies #[trigger] self.chips@[j] == before[j] by {
                        if j < i {
                            assert(self.chips@[j] == before[j]);
                        } else {
                            assert(self.chips@[j] == before[j]);
                        }
                    }
                }
                i = i + 1;
            }
        }
        true
    }

    /// The indices of the selected chips, in order.
    pub fn get_selected(&self) -> (v: Vec<usize>)
        ensures
            v@ == selected_indices(self.chips_spec(), self.chips_spec().len() as int),
    {
        let mut v: Vec<usize> = Vec::new();
        let mut i: usize = 0;
        while i < self.chips.len()
            invariant
                i <= self.chips@.len(),
                v@ == selected_indices(self.chips@, i as int),
            decreases self.chips@.len() - i,
        {
            if self.chips[i].is_selected() {
                v.push(i);
            }
            i = i + 1;
        }
        v
    }
}

/// With one chip selected, the selected indices below `k` are that chip's
/// index, if it lies below `k`.
proof fn lemma_one_selected(chips: Seq<Chip>, index: usize, k: int)
    requires
        0 <= k <= chips.len(),
        forall|i: int| 0 <= i < chips.len() ==> (#[trigger] chips[i]).selected_spec() == (i == index),
    ensures
        selected_indices(chips, k) == (if index < k { seq![index] } else { Seq::<usize>::empty() }),
    decreases k,
{
    if k > 0 {
        lemma_one_selected(chips, index, k - 1);
        assert(chips[k - 1].selected_spec() == (k - 1 == index));
        if k - 1 == index {
            assert(Seq::<usize>::empty().push(index) =~= seq![index]);
        }
    }
}

/// After a click on chip `index` of a group that selects one chip at a time,
/// that chip alone is selected.
pub proof fn law_single_select_click_selects_one(before: &ChipGroup, after: &ChipGroup, index: usize)
    requires
        !before.multi_select_spec(),
        index < before.chips_spec().len(),
        before.clicked_as(index, true, after),
    ensures
        selected_indices(after.chips_spec(), after.chips_spec().len() as int) == seq![index],
{
    lemma_one_selected(after.chips_spec(), index, after.chips_spec().len() as int);
}

/// In a group that selects several chips, clicking the same chip twice
/// gives back the selection as it was.
pub proof fn law_multi_select_click_twice(
    before: &ChipGroup,
    mid: &ChipGroup,
    after: &ChipGroup,
    index: usize,
    r1: bool,
    r2: bool,
)
    requires
        before.multi_select_spec(),
        before.clicked_as(index, r1, mid),
        mid.clicked_as(index, r2, after),
    ensures
        after.chips_spec().len() == before.chips_spec().len(),
        forall|i: int|
            0 <= i < before.chips_spec().len() ==> (#[trigger] after.chips_spec()[i]).selected_spec()
                == before.chips_spec()[i].selected_spec(),
{
    assert forall|i: int| 0 <= i < before.chips_spec().len() implies (#[trigger] after.chips_spec()[i]).selected_spec()
        == before.chips_spec()[i].selected_spec() by {
        assert(mid.chips_spec()[i].selected_spec() == (if !r1 {
            before.chips_spec()[i].selected_spec()
        } else if i == index {
            !before.chips_spec()[i].selected_spec()
        } else {
            before.chips_spec()[i].selected_spec()
        }));
    }
}

/// Part of a horizontal scrollbar under the pointer.
#[derive(Debug, Clone, Copy, PartialEq, Eq, Structural)]
pub enum ScrollbarHitTarget {
    /// Not on the scrollbar
    Outside,
    BeforeThumb,
    Thumb,
    AfterThumb,
}

/// Items that a scrollable list can hold.
pub trait ScrollableItem: Clone {
    /// A unique ID for this item (for height caching).
    fn id(&self) -> String;
}

/// State of a code block (primarily for its copy button).
pub struct CodeBlockContainer {
    pub id: String,
    pub raw_code: String,
    pub language: Option<String>,
    pub copy_success_time: Option<std::time::Instant>,
}

impl CodeBlockContainer {
    /// An empty code block with the given identifier.
    pub fn new(id: String) -> (c: Self)
        ensures
            c.id@ == id@,
            c.raw_code@ == Seq::<char>::empty(),
            c.language is None,
            c.copy_success_time is None,
    {
        CodeBlockContainer { id, raw_code: String::new(), language: None, copy_success_time: None }
    }
}

} // verus!
