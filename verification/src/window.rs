use vstd::prelude::*;
use crate::image_loader::key_views;
use crate::paths::{same_byte_path, same_path_bytes};
use crate::shortcuts::AppAction;
use crate::viewport::CropRatio;

verus! {

/// The paths left after dropping every one that is the same path as
/// `target` (component by component), in order.
pub open spec fn paths_without(paths: Seq<Seq<u8>>, target: Seq<u8>) -> Seq<Seq<u8>>
    decreases paths.len(),
{
    if paths.len() == 0 {
        Seq::empty()
    } else {
        let rest = paths_without(paths.drop_last(), target);
        if same_byte_path(paths.last(), target) { rest } else { rest.push(paths.last()) }
    }
}

/// The index shown after the image at `current` is removed from a list that
/// now holds `remaining` images: the same place, or the new last one.
pub open spec fn index_after_removal(current: int, remaining: int) -> int {
    if current >= remaining { remaining - 1 } else { current }
}

/// What became of the image set after the current image was trashed.
#[derive(Debug, Clone, Copy, PartialEq, Eq)]
pub enum TrashOutcome {
    /// Nothing was open.
    NothingOpen,
    /// No image is left: the home screen is shown.
    Emptied,
    /// The viewer goes on at this index.
    ShowIndex(usize),
}

/// The viewer window's navigation state: the open image set (paths as the
/// encoded bytes of the file path), the current image, and which chrome is
/// shown.
pub struct WindowState {
    paths: Vec<Vec<u8>>,
    current_index: usize,
    zen_mode: bool,
    filmstrip_visible: bool,
}

impl WindowState {
    /// The open paths, in order.
    pub closed spec fn path_seq(&self) -> Seq<Seq<u8>> {
        key_views(self.paths@)
    }

    /// The index of the current image.
    pub closed spec fn index(&self) -> nat {
        self.current_index as nat
    }

    /// Whether zen mode hides the chrome.
    pub closed spec fn zen(&self) -> bool {
        self.zen_mode
    }

    /// Whether the filmstrip is switched on.
    pub closed spec fn filmstrip(&self) -> bool {
        self.filmstrip_visible
    }

    /// Whether zen mode hides the chrome.
    pub fn zen_mode(&self) -> (r: bool)
        ensures
            r == self.zen(),
    {
        self.zen_mode
    }

    /// Whether the filmstrip is switched on.
    pub fn filmstrip_visible(&self) -> (r: bool)
        ensures
            r == self.filmstrip(),
    {
        self.filmstrip_visible
    }

    /// The image after the current one, if any.
    pub open spec fn next_of(&self) -> Option<nat> {
        if self.index() + 1 < self.path_seq().len() { Some(self.index() + 1) } else { None }
    }

    /// The image before the current one, if any.
    pub open spec fn prev_of(&self) -> Option<nat> {
        if self.index() > 0 { Some((self.index() - 1) as nat) } else { None }
    }

    /// The current image is one of the open ones whenever any is open.
    pub open spec fn wf(&self) -> bool {
        self.path_seq().len() > 0 ==> self.index() < self.path_seq().len()
    }

    /// No image open, chrome shown, filmstrip on.
    pub fn new() -> (s: Self)
        ensures
            s.wf(),
            s.path_seq().len() == 0,
            s.index() == 0,
            !s.zen(),
            s.filmstrip(),
    {
        let s = WindowState { paths: Vec::new(), current_index: 0, zen_mode: false, filmstrip_visible: true };
        assert(s.path_seq() =~= Seq::<Seq<u8>>::empty());
        s
    }

    /// The number of open images.
    pub fn len(&self) -> (n: usize)
        ensures
            n == self.path_seq().len(),
    {
        self.paths.len()
    }

    /// The index of the current image.
    pub fn current_index(&self) -> (i: usize)
        ensures
            i == self.index(),
    {
        self.current_index
    }

    /// The path at `i`.
    pub fn path_at(&self, i: usize) -> (p: &Vec<u8>)
        requires
            i < self.path_seq().len(),
        ensures
            p@ == self.path_seq()[i as int],
    {
        &self.paths[i]
    }

    /// The current image's path, when an image is open.
    pub fn current_path(&self) -> (p: Option<&Vec<u8>>)
        requires
            self.wf(),
        ensures
            match p {
                Some(v) => self.path_seq().len() > 0 && v@ == self.path_seq()[self.index() as int],
                None => self.path_seq().len() == 0,
            },
    {
        if self.paths.len() == 0 {
            None
        } else {
            Some(&self.paths[self.current_index])
        }
    }

    /// Moves to image `index`, held to the last one; nothing happens when no
    /// image is open. Gives the index moved to.
    pub fn go_to_index(&mut self, index: usize) -> (r: Option<usize>)
        requires
            old(self).wf(),
        ensures
            final(self).wf(),
            final(self).path_seq() == old(self).path_seq(),
            final(self).zen() == old(self).zen(),
            final(self).filmstrip() == old(self).filmstrip(),
            old(self).path_seq().len() == 0 ==> r is None && final(self).index() == old(self).index(),
            old(self).path_seq().len() > 0 ==> {
                let target = if index < old(self).path_seq().len() { index as int } else { old(self).path_seq().len() - 1 };
                &&& r == Some(target as usize)
                &&& final(self).index() == target
            },
    {
        let total = self.paths.len();
        if total == 0 {
            return None;
        }
        let idx = if index < total - 1 { index } else { total - 1 };
        self.current_index = idx;
        Some(idx)
    }

    /// Opens a new image set at `initial_index`, held to the last image.
    pub fn load_paths(&mut self, paths: Vec<Vec<u8>>, initial_index: usize)
        ensures
            final(self).wf(),
            final(self).path_seq() == key_views(paths@),
            final(self).zen() == old(self).zen(),
            final(self).filmstrip() == old(self).filmstrip(),
            paths@.len() == 0 ==> final(self).index() == initial_index,
            paths@.len() > 0 ==> final(self).index() == if initial_index < paths@.len() {
                initial_index as int
            } else {
                paths@.len() - 1
            },
    {
        let n = paths.len();
        self.paths = paths;
        self.current_index = initial_index;
        if n > 0 {
            let idx = if initial_index < n - 1 { initial_index } else { n - 1 };
            self.current_index = idx;
        }
    }

    /// The next image, when there is one.
    pub fn next_target(&self) -> (r: Option<usize>)
        requires
            self.wf(),
        ensures
            match r {
                Some(v) => self.next_of() == Some(v as nat),
                None => self.next_of() is None,
            },
    {
        if self.paths.len() > 0 && self.current_index + 1 < self.paths.len() {
            Some(self.current_index + 1)
        } else {
            None
        }
    }

    /// The previous image, when there is one.
    pub fn prev_target(&self) -> (r: Option<usize>)
        ensures
            match r {
                Some(v) => self.prev_of() == Some(v as nat),
                None => self.prev_of() is None,
            },
    {
        if self.current_index > 0 {
            Some(self.current_index - 1)
        } else {
            None
        }
    }

    /// The neighbors worth decoding ahead: the next one, the previous one and
    /// the one after next, those that exist, in that order.
    pub fn preload_targets(&self, current: usize) -> (r: Vec<usize>)
        ensures
            r@ == {
                let n = self.path_seq().len();
                let a: Seq<usize> = if current + 1 < n { seq![(current + 1) as usize] } else { Seq::empty() };
                let b: Seq<usize> = if current > 0 { seq![(current - 1) as usize] } else { Seq::empty() };
                let c: Seq<usize> = if current + 2 < n { seq![(current + 2) as usize] } else { Seq::empty() };
                a + b + c
            },
    {
        let n = self.paths.len();
        let mut list: Vec<usize> = Vec::new();
        if current < n && n - current > 1 {
            list.push(current + 1);
        }
        if current > 0 {
            list.push(current - 1);
        }
        if current < n && n - current > 2 {
            list.push(current + 2);
        }
        let ghost na: Seq<usize> = if current + 1 < n { seq![(current + 1) as usize] } else { Seq::empty() };
        let ghost nb: Seq<usize> = if current > 0 { seq![(current - 1) as usize] } else { Seq::empty() };
        let ghost nc: Seq<usize> = if current + 2 < n { seq![(current + 2) as usize] } else { Seq::empty() };
        assert(list@ =~= na + nb + nc);
        list
    }

    /// Moves the current image's path out of the set, and every other entry
    /// equal to it, and says where the viewer goes on.
    pub fn trash_current(&mut self) -> (r: TrashOutcome)
        requires
            old(self).wf(),
        ensures
            final(self).wf(),
            final(self).zen() == old(self).zen(),
            final(self).filmstrip() == old(self).filmstrip(),
            old(self).path_seq().len() == 0 ==> r is NothingOpen && final(self).path_seq() == old(self).path_seq()
                && final(self).index() == old(self).index(),
            old(self).path_seq().len() > 0 ==> {
                let gone = old(self).path_seq()[old(self).index() as int];
                let left = paths_without(old(self).path_seq(), gone);
                &&& final(self).path_seq() == left
                &&& forall|j: int| 0 <= j < left.len() ==> !same_byte_path(#[trigger] left[j], gone)
                &&& left.len() == 0 ==> r is Emptied && final(self).index() == 0
                &&& left.len() > 0 ==> r == TrashOutcome::ShowIndex(
                    index_after_removal(old(self).index() as int, left.len() as int) as usize,
                ) && final(self).index() == index_after_removal(old(self).index() as int, left.len() as int)
            },
    {
        let n = self.paths.len();
        if n == 0 {
            return TrashOutcome::NothingOpen;
        }
        let curr = self.current_index;
        let gone = self.paths[curr].clone();
        let ghost all = self.path_seq();
        let mut kept: Vec<Vec<u8>> = Vec::new();
        let mut i: usize = 0;
        while i < n
            invariant
                n == self.paths@.len(),
                all == self.path_seq(),
                i <= n,
                key_views(kept@) == paths_without(all.take(i as int), gone@),
            decreases n - i,
        {
            proof {
                assert(all.take(i + 1).drop_last() =~= all.take(i as int));
                assert(all[i as int] == self.paths@[i as int]@);
            }
            if !same_path_bytes(self.paths[i].as_slice(), gone.as_slice()) {
                let ghost before = kept@;
                kept.push(self.paths[i].clone());
                proof {
                    assert(key_views(kept@) =~= key_views(before).push(all[i as int]));
                }
            }
            i = i + 1;
        }
        proof {
            assert(all.take(n as int) =~= all);
            lemma_paths_without_excludes(all, gone@);
        }
        let m = kept.len();
        self.paths = kept;
        if m == 0 {
            self.current_index = 0;
            TrashOutcome::Emptied
        } else {
            let idx = if curr >= m { m - 1 } else { curr };
            self.current_index = idx;
            TrashOutcome::ShowIndex(idx)
        }
    }

    /// Switches zen mode; gives whether it is now on.
    pub fn toggle_zen(&mut self) -> (zen: bool)
        ensures
            final(self).zen() == !old(self).zen(),
            zen == final(self).zen(),
            final(self).filmstrip() == old(self).filmstrip(),
            final(self).path_seq() == old(self).path_seq(),
            final(self).index() == old(self).index(),
    {
        self.zen_mode = !self.zen_mode;
        self.zen_mode
    }

    /// Switches the filmstrip; gives whether it is now on screen (it is
    /// hidden in zen mode).
    pub fn toggle_filmstrip(&mut self) -> (shown: bool)
        ensures
            final(self).filmstrip() == !old(self).filmstrip(),
            shown == (final(self).filmstrip() && !final(self).zen()),
            final(self).zen() == old(self).zen(),
            final(self).path_seq() == old(self).path_seq(),
            final(self).index() == old(self).index(),
    {
        self.filmstrip_visible = !self.filmstrip_visible;
        self.filmstrip_visible && !self.zen_mode
    }

    /// Whether the top save button shows: there are edits, and not in zen mode.
    pub fn save_button_visible(&self, has_edits: bool) -> (r: bool)
        ensures
            r == (has_edits && !self.zen()),
    {
        has_edits && !self.zen_mode
    }

    /// Makes a just-saved copy part of the image set: its position when it is
    /// already there, otherwise it is appended and its new position given.
    /// The current image stays the same (the copy becomes current when the
    /// set was empty).
    pub fn add_saved_copy(&mut self, dest: Vec<u8>) -> (pos: usize)
        requires
            old(self).wf(),
        ensures
            final(self).wf(),
            old(self).path_seq().len() > 0 ==> final(self).index() == old(self).index(),
            old(self).path_seq().len() == 0 ==> final(self).index() == 0,
            final(self).zen() == old(self).zen(),
            final(self).filmstrip() == old(self).filmstrip(),
            holds_path(old(self).path_seq(), dest@) ==> final(self).path_seq() == old(self).path_seq()
                && forall|j: int| 0 <= j < pos ==> !same_byte_path(#[trigger] old(self).path_seq()[j], dest@),
            !holds_path(old(self).path_seq(), dest@) ==> final(self).path_seq() == old(self).path_seq().push(dest@)
                && pos == old(self).path_seq().len(),
            pos < final(self).path_seq().len(),
            same_byte_path(final(self).path_seq()[pos as int], dest@),
    {
        let n = self.paths.len();
        let mut i: usize = 0;
        while i < n
            invariant
                n == self.paths@.len(),
                self.paths@ == old(self).paths@,
                self.current_index == old(self).current_index,
                self.zen_mode == old(self).zen_mode,
                self.filmstrip_visible == old(self).filmstrip_visible,
                old(self).wf(),
                i <= n,
                forall|j: int| 0 <= j < i ==> !same_byte_path(#[trigger] self.path_seq()[j], dest@),
            decreases n - i,
        {
            if same_path_bytes(self.paths[i].as_slice(), dest.as_slice()) {
                proof {
                    let ps = self.path_seq();
                    assert(same_byte_path(ps[i as int], dest@));
                }
                return i;
            }
            i = i + 1;
        }
        let ghost before = self.paths@;
        self.paths.push(dest);
        if n == 0 {
            self.current_index = 0;
        }
        assert(self.path_seq() =~= key_views(before).push(self.paths@[n as int]@));
        proof {
            crate::paths::lemma_same_path_equivalence(dest@, dest@, dest@);
        }
        n
    }
}

/// What the window shows and which of its modes are on, as far as answering
/// a shortcut depends on it.
#[derive(Debug, Clone, Copy, PartialEq, Eq)]
pub struct ViewerStatus {
    /// The album overview is shown rather than the viewer.
    pub on_home: bool,
    /// The viewer is in crop mode.
    pub crop_mode: bool,
    /// The window is fullscreen.
    pub fullscreen: bool,
}

/// What the window does in answer to a shortcut.
#[derive(Debug, Clone, Copy, PartialEq, Eq)]
pub enum Command {
    ShowHome,
    NextImage,
    PrevImage,
    ZoomIn,
    ZoomOut,
    ZoomActualSize,
    ZoomFit,
    RotateCw,
    RotateCcw,
    FlipH,
    FlipV,
    ToggleCrop,
    /// Holds the crop frame to this ratio (and marks it on the crop bar).
    SelectCropRatio(CropRatio),
    ApplyCrop,
    CancelCrop,
    ToggleAdjustments,
    ShowInfo,
    Trash,
    ToggleZen,
    ToggleFilmstrip,
    Save,
    ShowHelp,
    /// Enters (`true`) or leaves fullscreen.
    SetFullscreen(bool),
    CloseWindow,
    /// The shortcut does not apply in this state.
    Nothing,
}

/// The crop-ratio selection that `action` asks for, when it asks for one.
pub open spec fn ratio_choice(action: AppAction) -> Option<CropRatio> {
    match action {
        AppAction::Zoom100 | AppAction::CropRatioFreeform => Some(CropRatio::Freeform),
        AppAction::CropRatioSquare => Some(CropRatio::Square),
        AppAction::CropRatio16_9 => Some(CropRatio::SixteenNine),
        _ => None,
    }
}

/// How the window answers `action` in state `status`. Crop shortcuts only
/// act in crop mode (where `0` picks the free ratio instead of zooming to
/// actual size); Escape closes the window from the album overview, leaves
/// crop mode in the viewer, and otherwise goes back to the albums.
pub open spec fn command_for(action: AppAction, status: ViewerStatus) -> Command {
    match action {
        AppAction::Home => Command::ShowHome,
        AppAction::NextImage => Command::NextImage,
        AppAction::PrevImage => Command::PrevImage,
        AppAction::ZoomIn => Command::ZoomIn,
        AppAction::ZoomOut => Command::ZoomOut,
        AppAction::Zoom100 => if status.crop_mode {
            Command::SelectCropRatio(CropRatio::Freeform)
        } else {
            Command::ZoomActualSize
        },
        AppAction::ZoomFit => Command::ZoomFit,
        AppAction::RotateCw => Command::RotateCw,
        AppAction::RotateCcw => Command::RotateCcw,
        AppAction::FlipH => Command::FlipH,
        AppAction::FlipV => Command::FlipV,
        AppAction::ToggleCrop => Command::ToggleCrop,
        AppAction::CropRatioFreeform | AppAction::CropRatioSquare | AppAction::CropRatio16_9 => if status.crop_mode {
            Command::SelectCropRatio(ratio_choice(action)->0)
        } else {
            Command::Nothing
        },
        AppAction::ApplyCrop => if status.crop_mode { Command::ApplyCrop } else { Command::Nothing },
        AppAction::ToggleAdjustments => Command::ToggleAdjustments,
        AppAction::ToggleInfo => Command::ShowInfo,
        AppAction::Trash => Command::Trash,
        AppAction::ToggleZen => Command::ToggleZen,
        AppAction::ToggleFilmstrip => Command::ToggleFilmstrip,
        AppAction::Save => Command::Save,
        AppAction::ShowHelp => Command::ShowHelp,
        AppAction::ToggleFullscreen => Command::SetFullscreen(!status.fullscreen),
        AppAction::Escape => if status.on_home {
            Command::CloseWindow
        } else if status.crop_mode {
            Command::CancelCrop
        } else {
            Command::ShowHome
        },
        AppAction::Quit => Command::CloseWindow,
    }
}

/// Decides how the window answers a shortcut (see `command_for`).
pub fn plan_action(action: AppAction, status: ViewerStatus) -> (c: Command)
    ensures
        c == command_for(action, status),
{
    match action {
        AppAction::Home => Command::ShowHome,
        AppAction::NextImage => Command::NextImage,
        AppAction::PrevImage => Command::PrevImage,
        AppAction::ZoomIn => Command::ZoomIn,
        AppAction::ZoomOut => Command::ZoomOut,
        AppAction::Zoom100 => {
            if status.crop_mode {
                Command::SelectCropRatio(CropRatio::Freeform)
            } else {
                Command::ZoomActualSize
            }
        },
        AppAction::ZoomFit => Command::ZoomFit,
        AppAction::RotateCw => Command::RotateCw,
        AppAction::RotateCcw => Command::RotateCcw,
        AppAction::FlipH => Command::FlipH,
        AppAction::FlipV => Command::FlipV,
        AppAction::ToggleCrop => Command::ToggleCrop,
        AppAction::CropRatioFreeform => {
            if status.crop_mode { Command::SelectCropRatio(CropRatio::Freeform) } else { Command::Nothing }
        },
        AppAction::CropRatioSquare => {
            if status.crop_mode { Command::SelectCropRatio(CropRatio::Square) } else { Command::Nothing }
        },
        AppAction::CropRatio16_9 => {
            if status.crop_mode { Command::SelectCropRatio(CropRatio::SixteenNine) } else { Command::Nothing }
        },
        AppAction::ApplyCrop => {
            if status.crop_mode { Command::ApplyCrop } else { Command::Nothing }
        },
        AppAction::ToggleAdjustments => Command::ToggleAdjustments,
        AppAction::ToggleInfo => Command::ShowInfo,
        AppAction::Trash => Command::Trash,
        AppAction::ToggleZen => Command::ToggleZen,
        AppAction::ToggleFilmstrip => Command::ToggleFilmstrip,
        AppAction::Save => Command::Save,
        AppAction::ShowHelp => Command::ShowHelp,
        AppAction::ToggleFullscreen => Command::SetFullscreen(!status.fullscreen),
        AppAction::Escape => {
            if status.on_home {
                Command::CloseWindow
            } else if status.crop_mode {
                Command::CancelCrop
            } else {
                Command::ShowHome
            }
        },
        AppAction::Quit => Command::CloseWindow,
    }
}

/// Outside crop mode no crop shortcut changes anything: applying, cancelling
/// or re-framing a crop happens only while cropping.
pub proof fn lemma_crop_commands_need_crop_mode(action: AppAction, status: ViewerStatus)
    requires
        !status.crop_mode,
    ensures
        command_for(action, status) != Command::ApplyCrop,
        command_for(action, status) != Command::CancelCrop,
        forall|r: CropRatio| command_for(action, status) != Command::SelectCropRatio(r),
{
}

/// Escape never closes the viewer: it closes the window only from the album
/// overview, and Quit always does.
pub proof fn lemma_escape_closes_only_from_home(status: ViewerStatus)
    ensures
        (command_for(AppAction::Escape, status) == Command::CloseWindow) == status.on_home,
        command_for(AppAction::Quit, status) == Command::CloseWindow,
{
}

/// Whether some path of `paths` is the same path as `target`.
pub open spec fn holds_path(paths: Seq<Seq<u8>>, target: Seq<u8>) -> bool {
    exists|j: int| 0 <= j < paths.len() && same_byte_path(#[trigger] paths[j], target)
}

/// Nothing that is the same path as the dropped one is left.
pub proof fn lemma_paths_without_excludes(paths: Seq<Seq<u8>>, target: Seq<u8>)
    ensures
        forall|j: int|
            0 <= j < paths_without(paths, target).len() ==> !same_byte_path(
                #[trigger] paths_without(paths, target)[j],
                target,
            ),
        paths_without(paths, target).len() <= paths.len(),
    decreases paths.len(),
{
    if paths.len() > 0 {
        lemma_paths_without_excludes(paths.drop_last(), target);
    }
}

/// Stepping to the next image and back returns to the same image: when
/// `after` is `before` moved to its next image, the image before `after`'s
/// current one is `before`'s current one.
pub proof fn lemma_next_then_prev(before: WindowState, after: WindowState)
    requires
        before.wf(),
        before.next_of() is Some,
        after.path_seq() == before.path_seq(),
        after.index() == before.next_of()->0,
    ensures
        after.wf(),
        after.prev_of() == Some(before.index()),
{
}

} // verus!
