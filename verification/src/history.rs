//! The history of saved colours, in the order in which they were saved: a
//! colour is added unless an equal one is there, and the first equal one is
//! taken away on removal. Colours compare as their `f32` components do, so a
//! colour with a NaN component equals none, itself included. The page of the
//! history shows either the colours or an empty state.
use vstd::prelude::*;

verus! {

/// A saved colour: the bit patterns (`f32::to_bits`) of its hue, saturation
/// and value. Two keys stand for equal colours when their components compare
/// equal as `f32` values do (see `same_color`), not when their bits agree.
#[derive(Clone, Copy, Debug, PartialEq, Eq, Structural)]
pub struct ColorKey {
    pub h: u32,
    pub s: u32,
    pub v: u32,
}

/// The bits of an `f32` NaN: all exponent bits set and a fraction other than zero.
pub open spec fn is_nan_bits(b: u32) -> bool {
    (b & 0x7f80_0000u32) == 0x7f80_0000u32 && (b & 0x007f_ffffu32) != 0
}

/// The bits of `0.0` or `-0.0`.
pub open spec fn is_zero_bits(b: u32) -> bool {
    (b & 0x7fff_ffffu32) == 0
}

/// `==` of two `f32` values given by their bits, as IEEE 754 defines it: no
/// NaN equals anything, the two zeros are equal, other values are equal when
/// their bits are.
pub open spec fn component_eq(a: u32, b: u32) -> bool {
    !is_nan_bits(a) && !is_nan_bits(b) && (a == b || (is_zero_bits(a) && is_zero_bits(b)))
}

/// Two colours are equal when each pair of components is.
pub open spec fn same_color(a: ColorKey, b: ColorKey) -> bool {
    component_eq(a.h, b.h) && component_eq(a.s, b.s) && component_eq(a.v, b.v)
}

/// A colour equal to `c` is in `s`.
pub open spec fn has_color(s: Seq<ColorKey>, c: ColorKey) -> bool {
    exists|i: int| 0 <= i < s.len() && #[trigger] same_color(s[i], c)
}

/// No two colours of `s` are equal.
pub open spec fn distinct_colors(s: Seq<ColorKey>) -> bool {
    forall|i: int, j: int|
        0 <= i < s.len() && 0 <= j < s.len() && i != j ==> !#[trigger] same_color(s[i], s[j])
}

/// The page that the history shows.
#[derive(Clone, Copy, Debug, PartialEq, Eq, Structural)]
pub enum HistoryPage {
    /// The placeholder for a history without colours.
    Empty,
    /// The list of saved colours.
    Content,
}

impl HistoryPage {
    /// The name of the page in the history's view stack.
    pub fn name(&self) -> (s: &'static str)
        ensures
            s@ == (match self {
                HistoryPage::Empty => "empty"@,
                HistoryPage::Content => "content"@,
            }),
    {
        match self {
            HistoryPage::Empty => "empty",
            HistoryPage::Content => "content",
        }
    }
}

/// What a change of the history asks of the view: whether a chip was added
/// or taken away, and the page to show now, where it must change.
#[derive(Clone, Copy, Debug, PartialEq, Eq, Structural)]
pub struct HistoryUpdate {
    pub changed: bool,
    pub show: Option<HistoryPage>,
}

/// The index of the first colour in `s` equal to `c` (`s.len()` where there is none).
pub open spec fn first_match(s: Seq<ColorKey>, c: ColorKey) -> int
    decreases s.len(),
{
    if s.len() == 0 {
        0
    } else if same_color(s[0], c) {
        0
    } else {
        1 + first_match(s.drop_first(), c)
    }
}

/// The saved colours after `c` is saved: it is added at the end unless an equal colour is there.
pub open spec fn added(s: Seq<ColorKey>, c: ColorKey) -> Seq<ColorKey> {
    if has_color(s, c) {
        s
    } else {
        s.push(c)
    }
}

/// The saved colours after `c` is taken away: the first colour equal to it goes, if there is one.
pub open spec fn removed(s: Seq<ColorKey>, c: ColorKey) -> Seq<ColorKey> {
    if has_color(s, c) {
        s.remove(first_match(s, c))
    } else {
        s
    }
}

/// The page that fits the saved colours.
pub open spec fn page_of(s: Seq<ColorKey>) -> HistoryPage {
    if s.len() == 0 {
        HistoryPage::Empty
    } else {
        HistoryPage::Content
    }
}

/// What saving `c` asks of the view.
pub open spec fn add_update(s: Seq<ColorKey>, c: ColorKey) -> HistoryUpdate {
    if has_color(s, c) {
        HistoryUpdate { changed: false, show: None }
    } else {
        HistoryUpdate { changed: true, show: Some(HistoryPage::Content) }
    }
}

/// What taking `c` away asks of the view.
pub open spec fn remove_update(s: Seq<ColorKey>, c: ColorKey) -> HistoryUpdate {
    if !has_color(s, c) {
        HistoryUpdate { changed: false, show: None }
    } else if s.len() == 1 {
        HistoryUpdate { changed: true, show: Some(HistoryPage::Empty) }
    } else {
        HistoryUpdate { changed: true, show: None }
    }
}

/// The page shown once the view has followed an update.
pub open spec fn shown_after(shown: HistoryPage, u: HistoryUpdate) -> HistoryPage {
    match u.show {
        Some(p) => p,
        None => shown,
    }
}

/// Colour equality is symmetric and transitive.
pub proof fn lemma_same_color_equivalence(a: ColorKey, b: ColorKey, c: ColorKey)
    ensures
        same_color(a, b) == same_color(b, a),
        same_color(a, b) && same_color(b, c) ==> same_color(a, c),
{
}

/// The first colour equal to one that occurs is where such a colour occurs first.
pub proof fn lemma_first_match(s: Seq<ColorKey>, c: ColorKey)
    requires
        has_color(s, c),
    ensures
        0 <= first_match(s, c) < s.len(),
        same_color(s[first_match(s, c)], c),
        forall|j: int| 0 <= j < first_match(s, c) ==> !#[trigger] same_color(s[j], c),
    decreases s.len(),
{
    if !same_color(s[0], c) {
        let k = choose|k: int| 0 <= k < s.len() && #[trigger] same_color(s[k], c);
        assert(s.drop_first()[k - 1] == s[k]);
        assert(same_color(s.drop_first()[k - 1], c));
        lemma_first_match(s.drop_first(), c);
        assert forall|j: int| 0 <= j < first_match(s, c) implies !#[trigger] same_color(s[j], c) by {
            if j > 0 {
                assert(s[j] == s.drop_first()[j - 1]);
            }
        }
    }
}

fn component_eq_of(a: u32, b: u32) -> (r: bool)
    ensures
        r == component_eq(a, b),
{
    let a_nan = (a & 0x7f80_0000u32) == 0x7f80_0000u32 && (a & 0x007f_ffffu32) != 0;
    let b_nan = (b & 0x7f80_0000u32) == 0x7f80_0000u32 && (b & 0x007f_ffffu32) != 0;
    let both_zero = (a & 0x7fff_ffffu32) == 0 && (b & 0x7fff_ffffu32) == 0;
    !a_nan && !b_nan && (a == b || both_zero)
}

impl ColorKey {
    /// Whether two colours compare equal, component by component, as `f32` does.
    pub fn same_as(&self, other: &ColorKey) -> (r: bool)
        ensures
            r == same_color(*self, *other),
    {
        component_eq_of(self.h, other.h) && component_eq_of(self.s, other.s) && component_eq_of(
            self.v,
            other.v,
        )
    }
}

/// The colours saved in the history.
pub struct PiccoloHistory {
    recent_colors: Vec<ColorKey>,
}

impl View for PiccoloHistory {
    type V = Seq<ColorKey>;

    closed spec fn view(&self) -> Seq<ColorKey> {
        self.recent_colors@
    }
}

impl PiccoloHistory {
    /// No two saved colours are equal.
    #[verifier::type_invariant]
    closed spec fn inv(self) -> bool {
        distinct_colors(self.recent_colors@)
    }

    /// A history without colours; its page is the empty state.
    pub fn new() -> (h: PiccoloHistory)
        ensures
            h@ == Seq::<ColorKey>::empty(),
            distinct_colors(h@),
            page_of(h@) == HistoryPage::Empty,
    {
        PiccoloHistory { recent_colors: Vec::new() }
    }

    /// The saved colours, oldest first (the view lists them newest first).
    pub fn recent_colors(&self) -> (v: Vec<ColorKey>)
        ensures
            v@ == self@,
    {
        self.recent_colors.clone()
    }

    /// Whether a colour equal to `color` is saved.
    pub fn contains(&self, color: &ColorKey) -> (r: bool)
        ensures
            r == has_color(self@, *color),
    {
        let n = self.recent_colors.len();
        let mut i: usize = 0;
        while i < n
            invariant
                n == self.recent_colors@.len(),
                i <= n,
                forall|j: int| 0 <= j < i ==> !#[trigger] same_color(self.recent_colors@[j], *color),
            decreases n - i,
        {
            if self.recent_colors[i].same_as(color) {
                return true;
            }
            i = i + 1;
        }
        false
    }

    /// Saves `color`, unless an equal colour is saved already; a new colour
    /// gets a chip at the head of the list, and the list is shown.
    pub fn add_chip(&mut self, color: &ColorKey) -> (u: HistoryUpdate)
        ensures
            final(self)@ == added(old(self)@, *color),
            distinct_colors(final(self)@),
            u == add_update(old(self)@, *color),
    {
        proof {
            use_type_invariant(&*self);
        }
        if self.contains(color) {
            return HistoryUpdate { changed: false, show: None };
        }
        let mut recents = Vec::new();
        core::mem::swap(&mut recents, &mut self.recent_colors);
        let ghost before = recents@;
        recents.push(*color);
        assert(distinct_colors(recents@)) by {
            assert forall|i: int, j: int|
                0 <= i < recents@.len() && 0 <= j < recents@.len() && i != j implies !#[trigger] same_color(
                recents@[i],
                recents@[j],
            ) by {
                if i == before.len() {
                    assert(before[j] == recents@[j]);
                    assert(!same_color(before[j], *color));
                } else if j == before.len() {
                    assert(before[i] == recents@[i]);
                    assert(!same_color(before[i], *color));
                } else {
                    assert(before[i] == recents@[i] && before[j] == recents@[j]);
                }
            }
        }
        self.recent_colors = recents;
        HistoryUpdate { changed: true, show: Some(HistoryPage::Content) }
    }

    /// Takes away the first saved colour equal to `color`, if there is one;
    /// once no colour is left, the empty state is shown.
    pub fn remove_chip(&mut self, color: &ColorKey) -> (u: HistoryUpdate)
        ensures
            final(self)@ == removed(old(self)@, *color),
            distinct_colors(final(self)@),
            u == remove_update(old(self)@, *color),
    {
        proof {
            use_type_invariant(&*self);
        }
        let n = self.recent_colors.len();
        let mut i: usize = 0;
        while i < n
            invariant
                n == self.recent_colors@.len(),
                i <= n,
                forall|j: int| 0 <= j < i ==> !#[trigger] same_color(self.recent_colors@[j], *color),
            ensures
                i <= n,
                forall|j: int| 0 <= j < i ==> !#[trigger] same_color(self.recent_colors@[j], *color),
                i < n ==> same_color(self.recent_colors@[i as int], *color),
            decreases n - i,
        {
            if self.recent_colors[i].same_as(color) {
                break;
            }
            i = i + 1;
        }
        if i == n {
            return HistoryUpdate { changed: false, show: None };
        }
        let ghost before = self.recent_colors@;
        proof {
            assert(has_color(before, *color)) by {
                assert(same_color(before[i as int], *color));
            }
            lemma_first_match(before, *color);
            let p = first_match(before, *color);
            if p < i {
                assert(!same_color(before[p], *color));
            }
            if p > i {
                assert(!same_color(before[i as int], *color));
            }
            assert(p == i);
        }
        let mut recents = Vec::new();
        core::mem::swap(&mut recents, &mut self.recent_colors);
        recents.remove(i);
        assert(distinct_colors(recents@)) by {
            assert forall|a: int, b: int|
                0 <= a < recents@.len() && 0 <= b < recents@.len() && a != b implies !#[trigger] same_color(
                recents@[a],
                recents@[b],
            ) by {
                let a0 = if a < i { a } else { a + 1 };
                let b0 = if b < i { b } else { b + 1 };
                assert(recents@[a] == before[a0]);
                assert(recents@[b] == before[b0]);
                assert(!same_color(before[a0], before[b0]));
            }
        }
        let empty = recents.len() == 0;
        self.recent_colors = recents;
        if empty {
            HistoryUpdate { changed: true, show: Some(HistoryPage::Empty) }
        } else {
            HistoryUpdate { changed: true, show: None }
        }
    }
}

/// Saving and taking away keep the saved colours pairwise unequal.
pub proof fn lemma_colors_stay_distinct(s: Seq<ColorKey>, c: ColorKey)
    requires
        distinct_colors(s),
    ensures
        distinct_colors(added(s, c)),
        distinct_colors(removed(s, c)),
{
    if !has_color(s, c) {
        let t = s.push(c);
        assert forall|i: int, j: int| 0 <= i < t.len() && 0 <= j < t.len() && i != j implies !#[trigger] same_color(
            t[i],
            t[j],
        ) by {
            if i == s.len() {
                assert(s[j] == t[j]);
                assert(!same_color(s[j], c));
            } else if j == s.len() {
                assert(s[i] == t[i]);
                assert(!same_color(s[i], c));
            } else {
                assert(s[i] == t[i] && s[j] == t[j]);
            }
        }
    } else {
        lemma_first_match(s, c);
        let p = first_match(s, c);
        let t = s.remove(p);
        assert forall|a: int, b: int| 0 <= a < t.len() && 0 <= b < t.len() && a != b implies !#[trigger] same_color(
            t[a],
            t[b],
        ) by {
            let a0 = if a < p { a } else { a + 1 };
            let b0 = if b < p { b } else { b + 1 };
            assert(t[a] == s[a0]);
            assert(t[b] == s[b0]);
            assert(!same_color(s[a0], s[b0]));
        }
    }
}

/// A colour with a NaN component is never found: it equals no saved colour.
pub proof fn lemma_nan_color_never_found(s: Seq<ColorKey>, c: ColorKey)
    requires
        is_nan_bits(c.h) || is_nan_bits(c.s) || is_nan_bits(c.v),
    ensures
        !has_color(s, c),
        added(s, c) == s.push(c),
        removed(s, c) == s,
{
}

/// A saved colour without NaN is in the history; saving it again changes nothing.
pub proof fn lemma_save_is_idempotent(s: Seq<ColorKey>, c: ColorKey)
    requires
        same_color(c, c),
    ensures
        has_color(added(s, c), c),
        added(added(s, c), c) == added(s, c),
        add_update(added(s, c), c) == (HistoryUpdate { changed: false, show: None }),
{
    if !has_color(s, c) {
        assert(s.push(c)[s.len() as int] == c);
        assert(same_color(s.push(c)[s.len() as int], c));
    }
}

/// Taking away a colour without NaN that was just saved, new, gives back the
/// history as it was.
pub proof fn lemma_remove_undoes_save(s: Seq<ColorKey>, c: ColorKey)
    requires
        same_color(c, c),
        !has_color(s, c),
    ensures
        removed(added(s, c), c) == s,
{
    let t = s.push(c);
    assert(t[s.len() as int] == c);
    assert(same_color(t[s.len() as int], c));
    lemma_first_match(t, c);
    let p = first_match(t, c);
    if p < s.len() {
        assert(s[p] == t[p]);
        assert(!same_color(s[p], c));
    }
    assert(t.remove(p) =~= s);
}

/// Once a colour is taken away, no colour equal to it is left in the history.
pub proof fn lemma_removed_is_gone(s: Seq<ColorKey>, c: ColorKey)
    requires
        distinct_colors(s),
    ensures
        !has_color(removed(s, c), c),
{
    if has_color(s, c) {
        lemma_first_match(s, c);
        let p = first_match(s, c);
        let t = s.remove(p);
        if has_color(t, c) {
            let k = choose|k: int| 0 <= k < t.len() && #[trigger] same_color(t[k], c);
            let k0 = if k < p { k } else { k + 1 };
            assert(t[k] == s[k0]);
            lemma_same_color_equivalence(s[k0], c, s[p]);
            lemma_same_color_equivalence(s[p], c, s[k0]);
            assert(same_color(s[k0], s[p]));
        }
    }
}

/// Where the page shown fits the saved colours, it still fits them after a
/// colour is saved or taken away and the view has followed the update: the
/// empty state is shown exactly when no colour is saved.
pub proof fn lemma_page_follows_colors(s: Seq<ColorKey>, shown: HistoryPage, c: ColorKey)
    requires
        shown == page_of(s),
    ensures
        shown_after(shown, add_update(s, c)) == page_of(added(s, c)),
        shown_after(shown, remove_update(s, c)) == page_of(removed(s, c)),
{
    if has_color(s, c) {
        lemma_first_match(s, c);
    }
}

/// Two colours that differ in a component as `f32` sees it (their bits differ
/// and they are not both zeros) are different colours: saving one does not put
/// the other in the history.
pub proof fn lemma_differing_component_is_another_color(s: Seq<ColorKey>, c: ColorKey, d: ColorKey)
    requires
        !has_color(s, d),
        (c.h != d.h && ((c.h & 0x7fff_ffffu32) != 0 || (d.h & 0x7fff_ffffu32) != 0)) || (c.s
            != d.s && ((c.s & 0x7fff_ffffu32) != 0 || (d.s & 0x7fff_ffffu32) != 0)) || (c.v != d.v
            && ((c.v & 0x7fff_ffffu32) != 0 || (d.v & 0x7fff_ffffu32) != 0)),
    ensures
        !has_color(added(s, c), d),
{
    if !has_color(s, c) {
        let t = s.push(c);
        if has_color(t, d) {
            let k = choose|k: int| 0 <= k < t.len() && #[trigger] same_color(t[k], d);
            if k < s.len() {
                assert(t[k] == s[k]);
                assert(same_color(s[k], d));
            } else {
                assert(t[k] == c);
            }
        }
    }
}

/// Saving a colour whose bits hold no NaN puts it in the history, and a
/// colour with the very same bits is then found there.
pub proof fn lemma_saved_color_is_found(s: Seq<ColorKey>, c: ColorKey)
    requires
        !((c.h & 0x7f80_0000u32) == 0x7f80_0000u32 && (c.h & 0x007f_ffffu32) != 0),
        !((c.s & 0x7f80_0000u32) == 0x7f80_0000u32 && (c.s & 0x007f_ffffu32) != 0),
        !((c.v & 0x7f80_0000u32) == 0x7f80_0000u32 && (c.v & 0x007f_ffffu32) != 0),
    ensures
        has_color(added(s, c), c),
        added(s, c) == s || added(s, c) == s.push(c),
{
    if !has_color(s, c) {
        assert(s.push(c)[s.len() as int] == c);
        assert(same_color(s.push(c)[s.len() as int], c));
    }
}

/// An update says a chip changed exactly when the number of saved colours
/// changed: saving adds one colour or none, taking away removes one or none.
pub proof fn lemma_update_tells_change(s: Seq<ColorKey>, c: ColorKey)
    ensures
        added(s, c).len() == s.len() + (if add_update(s, c).changed {
            1int
        } else {
            0int
        }),
        removed(s, c).len() + (if remove_update(s, c).changed {
            1int
        } else {
            0int
        }) == s.len(),
{
    if has_color(s, c) {
        lemma_first_match(s, c);
    }
}

} // verus!
