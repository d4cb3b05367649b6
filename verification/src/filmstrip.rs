use vstd::prelude::*;

verus! {

/// The height of one thumbnail slot of the filmstrip, in pixels.
pub const SLOT_HEIGHT: u32 = 96;

/// The top edge of slot `idx`, in half-pixels from the top of a strip
/// `height` pixels high, when the strip is scrolled so that slot `active`
/// sits in the middle: the strip's offset is `height / 2 - (active * h + h / 2)`
/// and slot `idx` starts `idx * h` below it.
pub open spec fn slot_top_half(height: int, active: int, idx: int) -> int {
    height - 2 * active * SLOT_HEIGHT - SLOT_HEIGHT + 2 * idx * SLOT_HEIGHT
}

/// The slot under a point `y_half` half-pixels from the top of the strip,
/// which may lie before the first slot (negative) or after the last one.
pub open spec fn slot_at(height: int, active: int, y_half: int) -> int {
    (y_half - slot_top_half(height, active, 0)) / (2 * SLOT_HEIGHT)
}

/// Where slot `idx` starts, in half-pixels (see `slot_top_half`).
pub fn slot_top(height: i32, active: usize, idx: usize) -> (t: i128)
    ensures
        t == slot_top_half(height as int, active as int, idx as int),
{
    let h: i128 = SLOT_HEIGHT as i128;
    height as i128 - 2 * (active as i128) * h - h + 2 * (idx as i128) * h
}

/// Whether any part of slot `idx` lies within the strip, so that it is drawn:
/// it neither ends above the top nor starts below the bottom.
pub fn slot_visible(height: i32, active: usize, idx: usize) -> (r: bool)
    ensures
        r == !(slot_top_half(height as int, active as int, idx as int) + 2 * SLOT_HEIGHT < 0
            || slot_top_half(height as int, active as int, idx as int) > 2 * height),
{
    let top = slot_top(height, active, idx);
    let bottom = top + 2 * (SLOT_HEIGHT as i128);
    !(bottom < 0 || top > 2 * (height as i128))
}

/// Which way a scroll or an arrow button moves the selection.
#[derive(Debug, Clone, Copy, PartialEq, Eq)]
pub enum Step {
    /// Towards the first image (scrolling up, the upper button).
    Previous,
    /// Towards the last image (scrolling down, the lower button).
    Next,
}

/// The filmstrip's selection: how many images it shows and which one is
/// active. The active index is whatever it was last set to; it is not
/// clamped to the number of images.
pub struct FilmstripCursor {
    count: usize,
    active: usize,
}

impl FilmstripCursor {
    /// The number of images in the strip.
    pub closed spec fn total(&self) -> nat {
        self.count as nat
    }

    /// The active index.
    pub closed spec fn current(&self) -> nat {
        self.active as nat
    }

    /// An empty strip with the first slot active.
    pub fn new() -> (c: Self)
        ensures
            c.total() == 0,
            c.current() == 0,
    {
        FilmstripCursor { count: 0, active: 0 }
    }

    /// The number of images in the strip.
    pub fn count(&self) -> (n: usize)
        ensures
            n == self.total(),
    {
        self.count
    }

    /// The active index.
    pub fn active_index(&self) -> (i: usize)
        ensures
            i == self.current(),
    {
        self.active
    }

    /// Shows a new set of `count` images with `active` selected.
    pub fn set_paths(&mut self, count: usize, active: usize)
        ensures
            final(self).total() == count,
            final(self).current() == active,
    {
        self.count = count;
        self.active = active;
    }

    /// Selects `index`; gives whether the selection changed, so that the
    /// strip has to be drawn again.
    pub fn set_active_index(&mut self, index: usize) -> (changed: bool)
        ensures
            changed == (old(self).current() != index),
            final(self).current() == index,
            final(self).total() == old(self).total(),
    {
        if self.active != index {
            self.active = index;
            true
        } else {
            false
        }
    }

    /// The index one step away in direction `dir`, when there is an image there.
    pub open spec fn step_target(&self, dir: Step) -> Option<nat> {
        match dir {
            Step::Previous => if self.current() > 0 { Some((self.current() - 1) as nat) } else { None },
            Step::Next => if self.current() + 1 < self.total() { Some(self.current() + 1) } else { None },
        }
    }

    /// An arrow button: moves the selection one step and gives the newly
    /// selected index, or gives `None` at either end.
    pub fn press(&mut self, dir: Step) -> (r: Option<usize>)
        ensures
            r == (match old(self).step_target(dir) {
                Some(t) => Some(t as usize),
                None => None::<usize>,
            }),
            final(self).total() == old(self).total(),
            final(self).current() == (match old(self).step_target(dir) {
                Some(t) => t,
                None => old(self).current(),
            }),
    {
        match dir {
            Step::Previous => {
                if self.active > 0 {
                    self.active = self.active - 1;
                    Some(self.active)
                } else {
                    None
                }
            },
            Step::Next => {
                if self.active < self.count && self.count - self.active > 1 {
                    self.active = self.active + 1;
                    Some(self.active)
                } else {
                    None
                }
            },
        }
    }

    /// A scroll of the strip: as an arrow button, except that an empty strip
    /// never moves.
    pub fn scroll(&mut self, dir: Step) -> (r: Option<usize>)
        ensures
            old(self).total() == 0 ==> r is None && final(self).current() == old(self).current(),
            old(self).total() > 0 ==> r == (match old(self).step_target(dir) {
                Some(t) => Some(t as usize),
                None => None::<usize>,
            }) && final(self).current() == (match old(self).step_target(dir) {
                Some(t) => t,
                None => old(self).current(),
            }),
            final(self).total() == old(self).total(),
    {
        if self.count == 0 {
            None
        } else {
            self.press(dir)
        }
    }

    /// The slot picked by a click `y_half` half-pixels from the top of a
    /// strip `height` pixels high: the slot under the point, when that is an
    /// image other than the active one.
    pub open spec fn click_target(&self, height: int, y_half: int) -> Option<nat> {
        let s = slot_at(height, self.current() as int, y_half);
        if 0 <= s < self.total() && s != self.current() { Some(s as nat) } else { None }
    }

    /// A click on the strip: selects the image under the point (see
    /// `click_target`) and gives it, or gives `None` and changes nothing.
    pub fn click(&mut self, height: i32, y_half: i64) -> (r: Option<usize>)
        ensures
            r == (match old(self).click_target(height as int, y_half as int) {
                Some(t) => Some(t as usize),
                None => None::<usize>,
            }),
            final(self).total() == old(self).total(),
            final(self).current() == (match old(self).click_target(height as int, y_half as int) {
                Some(t) => t,
                None => old(self).current(),
            }),
    {
        let top0 = slot_top(height, self.active, 0);
        let rel: i128 = y_half as i128 - top0;
        let h2: i128 = 2 * (SLOT_HEIGHT as i128);
        let slot: i128 = if rel >= 0 {
            rel / h2
        } else {
            -((-rel + h2 - 1) / h2)
        };
        proof {
            let ghost want = slot_at(height as int, self.active as int, y_half as int);
            assert(rel == y_half - slot_top_half(height as int, self.active as int, 0));
            if rel < 0 {
                let q: int = (-rel + 191) as int / 192;
                assert(slot == -q);
                assert(want == (rel as int) / 192);
                assert(192 * q <= -rel + 191 < 192 * q + 192);
                assert(192 * want <= rel < 192 * want + 192);
                assert(want == -q);
            }
        }
        if slot >= 0 && slot < self.count as i128 && slot != self.active as i128 {
            let target = slot as usize;
            self.active = target;
            Some(target)
        } else {
            None
        }
    }
}

/// The active slot is centred: its middle is the middle of the strip.
pub proof fn lemma_active_slot_centred(height: int, active: int)
    ensures
        slot_top_half(height, active, active) + SLOT_HEIGHT == height,
{
}

/// Consecutive slots follow each other without gap or overlap.
pub proof fn lemma_slots_adjoin(height: int, active: int, idx: int)
    ensures
        slot_top_half(height, active, idx + 1) == slot_top_half(height, active, idx) + 2 * SLOT_HEIGHT,
{
}

/// A point inside slot `idx` is in that slot, so a click there selects the
/// image of that slot, when it is one of the images and not the active one.
pub proof fn lemma_click_inside_slot(c: FilmstripCursor, height: int, idx: int, y_half: int)
    requires
        slot_top_half(height, c.current() as int, idx) <= y_half < slot_top_half(height, c.current() as int, idx) + 2
            * SLOT_HEIGHT,
    ensures
        slot_at(height, c.current() as int, y_half) == idx,
        0 <= idx < c.total() && idx != c.current() ==> c.click_target(height, y_half) == Some(idx as nat),
        idx == c.current() ==> c.click_target(height, y_half) is None,
{
    let a = c.current() as int;
    let rel = y_half - slot_top_half(height, a, 0);
    assert(slot_top_half(height, a, idx) - slot_top_half(height, a, 0) == 2 * SLOT_HEIGHT * idx) by (nonlinear_arith);
    assert(2 * SLOT_HEIGHT * idx <= rel < 2 * SLOT_HEIGHT * idx + 2 * SLOT_HEIGHT);
    assert(rel / (2 * SLOT_HEIGHT) == idx) by (nonlinear_arith)
        requires
            192 * idx <= rel < 192 * idx + 192,
            SLOT_HEIGHT == 96,
    ;
}

/// Stepping to the next image and back returns to the image one started on.
pub proof fn lemma_next_then_previous(before: FilmstripCursor, after: FilmstripCursor)
    requires
        before.step_target(Step::Next) is Some,
        after.total() == before.total(),
        after.current() == before.step_target(Step::Next)->0,
    ensures
        after.step_target(Step::Previous) == Some(before.current()),
{
}

} // verus!
