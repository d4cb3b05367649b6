use vstd::prelude::*;

verus! {

/// What a keyboard shortcut asks the viewer to do.
#[derive(Debug, Clone, Copy, PartialEq, Eq)]
pub enum AppAction {
    Home,
    NextImage,
    PrevImage,
    ZoomIn,
    ZoomOut,
    Zoom100,
    ZoomFit,
    RotateCw,
    RotateCcw,
    FlipH,
    FlipV,
    ToggleCrop,
    ApplyCrop,
    CropRatioFreeform,
    CropRatioSquare,
    CropRatio16_9,
    ToggleAdjustments,
    ToggleInfo,
    Trash,
    ToggleZen,
    ToggleFilmstrip,
    Save,
    ShowHelp,
    ToggleFullscreen,
    Escape,
    Quit,
}

/// The keys the viewer has shortcuts for (named after their GDK key
/// symbols), and every other key.
#[derive(Debug, Clone, Copy, PartialEq, Eq)]
pub enum KeyName {
    Home,
    LowerJ,
    Right,
    Space,
    LowerK,
    Left,
    BackSpace,
    Plus,
    Equal,
    KpAdd,
    Up,
    Minus,
    Underscore,
    KpSubtract,
    Down,
    Digit0,
    Kp0,
    Digit1,
    Kp1,
    Digit2,
    Kp2,
    LowerF,
    UpperF,
    LowerR,
    UpperR,
    LowerH,
    UpperH,
    LowerV,
    UpperV,
    LowerC,
    UpperC,
    Return,
    KpEnter,
    LowerA,
    UpperA,
    LowerE,
    UpperE,
    LowerI,
    UpperI,
    Delete,
    LowerD,
    UpperD,
    Tab,
    LowerZ,
    UpperZ,
    LowerG,
    UpperG,
    LowerS,
    UpperS,
    Question,
    Slash,
    F1,
    F11,
    Escape,
    LowerQ,
    UpperQ,
    Other,
}

/// The shortcut table: which action a key press asks for, given whether
/// Control and Shift are held.
pub open spec fn action_for(key: KeyName, ctrl: bool, shift: bool) -> Option<AppAction> {
    match key {
        KeyName::Home => Some(AppAction::Home),
        KeyName::LowerJ | KeyName::Right | KeyName::Space => Some(AppAction::NextImage),
        KeyName::LowerK | KeyName::Left | KeyName::BackSpace => Some(AppAction::PrevImage),
        KeyName::Plus | KeyName::Equal | KeyName::KpAdd => Some(AppAction::ZoomIn),
        KeyName::Up => if ctrl { Some(AppAction::ZoomIn) } else { None },
        KeyName::Minus | KeyName::Underscore | KeyName::KpSubtract => Some(AppAction::ZoomOut),
        KeyName::Down => if ctrl { Some(AppAction::ZoomOut) } else { None },
        KeyName::Digit0 | KeyName::Kp0 => Some(AppAction::Zoom100),
        KeyName::Digit1 | KeyName::Kp1 => Some(AppAction::CropRatioSquare),
        KeyName::Digit2 | KeyName::Kp2 => Some(AppAction::CropRatio16_9),
        KeyName::LowerF | KeyName::UpperF => Some(AppAction::ZoomFit),
        KeyName::LowerR => if shift { Some(AppAction::RotateCcw) } else { Some(AppAction::RotateCw) },
        KeyName::UpperR => if shift { Some(AppAction::RotateCcw) } else { None },
        KeyName::LowerH | KeyName::UpperH => Some(AppAction::FlipH),
        KeyName::LowerV | KeyName::UpperV => Some(AppAction::FlipV),
        KeyName::LowerC | KeyName::UpperC => Some(AppAction::ToggleCrop),
        KeyName::Return | KeyName::KpEnter => Some(AppAction::ApplyCrop),
        KeyName::LowerA | KeyName::UpperA | KeyName::LowerE | KeyName::UpperE => Some(AppAction::ToggleAdjustments),
        KeyName::LowerI | KeyName::UpperI => Some(AppAction::ToggleInfo),
        KeyName::Delete | KeyName::LowerD | KeyName::UpperD => Some(AppAction::Trash),
        KeyName::Tab | KeyName::LowerZ | KeyName::UpperZ => Some(AppAction::ToggleZen),
        KeyName::LowerG | KeyName::UpperG => Some(AppAction::ToggleFilmstrip),
        KeyName::LowerS | KeyName::UpperS => Some(AppAction::Save),
        KeyName::Question | KeyName::Slash => if shift { Some(AppAction::ShowHelp) } else { None },
        KeyName::F1 => Some(AppAction::ShowHelp),
        KeyName::F11 => Some(AppAction::ToggleFullscreen),
        KeyName::Escape => Some(AppAction::Escape),
        KeyName::LowerQ | KeyName::UpperQ => Some(AppAction::Quit),
        KeyName::Other => None,
    }
}

/// The action a key press asks for, if it is a shortcut.
pub fn action_for_key(key: KeyName, ctrl: bool, shift: bool) -> (r: Option<AppAction>)
    ensures
        r == action_for(key, ctrl, shift),
{
    match key {
        KeyName::Home => Some(AppAction::Home),
        KeyName::LowerJ | KeyName::Right | KeyName::Space => Some(AppAction::NextImage),
        KeyName::LowerK | KeyName::Left | KeyName::BackSpace => Some(AppAction::PrevImage),
        KeyName::Plus | KeyName::Equal | KeyName::KpAdd => Some(AppAction::ZoomIn),
        KeyName::Up => if ctrl { Some(AppAction::ZoomIn) } else { None },
        KeyName::Minus | KeyName::Underscore | KeyName::KpSubtract => Some(AppAction::ZoomOut),
        KeyName::Down => if ctrl { Some(AppAction::ZoomOut) } else { None },
        KeyName::Digit0 | KeyName::Kp0 => Some(AppAction::Zoom100),
        KeyName::Digit1 | KeyName::Kp1 => Some(AppAction::CropRatioSquare),
        KeyName::Digit2 | KeyName::Kp2 => Some(AppAction::CropRatio16_9),
        KeyName::LowerF | KeyName::UpperF => Some(AppAction::ZoomFit),
        KeyName::LowerR => if shift { Some(AppAction::RotateCcw) } else { Some(AppAction::RotateCw) },
        KeyName::UpperR => if shift { Some(AppAction::RotateCcw) } else { None },
        KeyName::LowerH | KeyName::UpperH => Some(AppAction::FlipH),
        KeyName::LowerV | KeyName::UpperV => Some(AppAction::FlipV),
        KeyName::LowerC | KeyName::UpperC => Some(AppAction::ToggleCrop),
        KeyName::Return | KeyName::KpEnter => Some(AppAction::ApplyCrop),
        KeyName::LowerA | KeyName::UpperA | KeyName::LowerE | KeyName::UpperE => Some(AppAction::ToggleAdjustments),
        KeyName::LowerI | KeyName::UpperI => Some(AppAction::ToggleInfo),
        KeyName::Delete | KeyName::LowerD | KeyName::UpperD => Some(AppAction::Trash),
        KeyName::Tab | KeyName::LowerZ | KeyName::UpperZ => Some(AppAction::ToggleZen),
        KeyName::LowerG | KeyName::UpperG => Some(AppAction::ToggleFilmstrip),
        KeyName::LowerS | KeyName::UpperS => Some(AppAction::Save),
        KeyName::Question | KeyName::Slash => if shift { Some(AppAction::ShowHelp) } else { None },
        KeyName::F1 => Some(AppAction::ShowHelp),
        KeyName::F11 => Some(AppAction::ToggleFullscreen),
        KeyName::Escape => Some(AppAction::Escape),
        KeyName::LowerQ | KeyName::UpperQ => Some(AppAction::Quit),
        KeyName::Other => None,
    }
}

/// The navigation keys, whatever modifiers are held: `j`, the Right arrow
/// and Space ask for the next image; `k`, the Left arrow and Backspace for
/// the previous one; Home for the albums screen.
pub proof fn lemma_navigation_keys(ctrl: bool, shift: bool)
    ensures
        action_for(KeyName::LowerJ, ctrl, shift) == Some(AppAction::NextImage),
        action_for(KeyName::Right, ctrl, shift) == Some(AppAction::NextImage),
        action_for(KeyName::Space, ctrl, shift) == Some(AppAction::NextImage),
        action_for(KeyName::LowerK, ctrl, shift) == Some(AppAction::PrevImage),
        action_for(KeyName::Left, ctrl, shift) == Some(AppAction::PrevImage),
        action_for(KeyName::BackSpace, ctrl, shift) == Some(AppAction::PrevImage),
        action_for(KeyName::Home, ctrl, shift) == Some(AppAction::Home),
{
}

/// The zoom keys: `+`, `=` and keypad plus zoom in, as does Control with the
/// Up arrow; `-`, `_` and keypad minus zoom out, as does Control with the
/// Down arrow; `0` shows the actual size and `f` fits the window. The Up and
/// Down arrows without Control do nothing.
pub proof fn lemma_zoom_keys(ctrl: bool, shift: bool)
    ensures
        action_for(KeyName::Plus, ctrl, shift) == Some(AppAction::ZoomIn),
        action_for(KeyName::Equal, ctrl, shift) == Some(AppAction::ZoomIn),
        action_for(KeyName::KpAdd, ctrl, shift) == Some(AppAction::ZoomIn),
        action_for(KeyName::Up, true, shift) == Some(AppAction::ZoomIn),
        action_for(KeyName::Up, false, shift) == None::<AppAction>,
        action_for(KeyName::Minus, ctrl, shift) == Some(AppAction::ZoomOut),
        action_for(KeyName::Underscore, ctrl, shift) == Some(AppAction::ZoomOut),
        action_for(KeyName::KpSubtract, ctrl, shift) == Some(AppAction::ZoomOut),
        action_for(KeyName::Down, true, shift) == Some(AppAction::ZoomOut),
        action_for(KeyName::Down, false, shift) == None::<AppAction>,
        action_for(KeyName::Digit0, ctrl, shift) == Some(AppAction::Zoom100),
        action_for(KeyName::Kp0, ctrl, shift) == Some(AppAction::Zoom100),
        action_for(KeyName::LowerF, ctrl, shift) == Some(AppAction::ZoomFit),
        action_for(KeyName::UpperF, ctrl, shift) == Some(AppAction::ZoomFit),
{
}

/// The editing keys: `r` turns clockwise, and with Shift (also as `R`)
/// counter-clockwise; `h` and `v` flip; `c` enters crop mode and Enter
/// applies the crop, `1` and `2` pick the square and 16:9 crop ratios;
/// `a` or `e` open the adjustments, `s` saves, Delete or `d` trashes.
pub proof fn lemma_editing_keys(ctrl: bool, shift: bool)
    ensures
        action_for(KeyName::LowerR, ctrl, false) == Some(AppAction::RotateCw),
        action_for(KeyName::LowerR, ctrl, true) == Some(AppAction::RotateCcw),
        action_for(KeyName::UpperR, ctrl, true) == Some(AppAction::RotateCcw),
        action_for(KeyName::UpperR, ctrl, false) == None::<AppAction>,
        action_for(KeyName::LowerH, ctrl, shift) == Some(AppAction::FlipH),
        action_for(KeyName::UpperH, ctrl, shift) == Some(AppAction::FlipH),
        action_for(KeyName::LowerV, ctrl, shift) == Some(AppAction::FlipV),
        action_for(KeyName::UpperV, ctrl, shift) == Some(AppAction::FlipV),
        action_for(KeyName::LowerC, ctrl, shift) == Some(AppAction::ToggleCrop),
        action_for(KeyName::UpperC, ctrl, shift) == Some(AppAction::ToggleCrop),
        action_for(KeyName::Return, ctrl, shift) == Some(AppAction::ApplyCrop),
        action_for(KeyName::KpEnter, ctrl, shift) == Some(AppAction::ApplyCrop),
        action_for(KeyName::Digit1, ctrl, shift) == Some(AppAction::CropRatioSquare),
        action_for(KeyName::Kp1, ctrl, shift) == Some(AppAction::CropRatioSquare),
        action_for(KeyName::Digit2, ctrl, shift) == Some(AppAction::CropRatio16_9),
        action_for(KeyName::Kp2, ctrl, shift) == Some(AppAction::CropRatio16_9),
        action_for(KeyName::LowerA, ctrl, shift) == Some(AppAction::ToggleAdjustments),
        action_for(KeyName::UpperA, ctrl, shift) == Some(AppAction::ToggleAdjustments),
        action_for(KeyName::LowerE, ctrl, shift) == Some(AppAction::ToggleAdjustments),
        action_for(KeyName::UpperE, ctrl, shift) == Some(AppAction::ToggleAdjustments),
        action_for(KeyName::LowerS, ctrl, shift) == Some(AppAction::Save),
        action_for(KeyName::UpperS, ctrl, shift) == Some(AppAction::Save),
        action_for(KeyName::Delete, ctrl, shift) == Some(AppAction::Trash),
        action_for(KeyName::LowerD, ctrl, shift) == Some(AppAction::Trash),
        action_for(KeyName::UpperD, ctrl, shift) == Some(AppAction::Trash),
{
}

/// The view and window keys: `i` shows the image details, Tab or `z` zen
/// mode, `g` the filmstrip, F1 (or `?` with Shift) the help, F11 toggles
/// fullscreen, Escape escapes, `q` quits; any other key asks for nothing.
pub proof fn lemma_view_keys(ctrl: bool, shift: bool)
    ensures
        action_for(KeyName::LowerI, ctrl, shift) == Some(AppAction::ToggleInfo),
        action_for(KeyName::UpperI, ctrl, shift) == Some(AppAction::ToggleInfo),
        action_for(KeyName::Tab, ctrl, shift) == Some(AppAction::ToggleZen),
        action_for(KeyName::LowerZ, ctrl, shift) == Some(AppAction::ToggleZen),
        action_for(KeyName::UpperZ, ctrl, shift) == Some(AppAction::ToggleZen),
        action_for(KeyName::LowerG, ctrl, shift) == Some(AppAction::ToggleFilmstrip),
        action_for(KeyName::UpperG, ctrl, shift) == Some(AppAction::ToggleFilmstrip),
        action_for(KeyName::F1, ctrl, shift) == Some(AppAction::ShowHelp),
        action_for(KeyName::Question, ctrl, true) == Some(AppAction::ShowHelp),
        action_for(KeyName::Slash, ctrl, true) == Some(AppAction::ShowHelp),
        action_for(KeyName::Question, ctrl, false) == None::<AppAction>,
        action_for(KeyName::Slash, ctrl, false) == None::<AppAction>,
        action_for(KeyName::F11, ctrl, shift) == Some(AppAction::ToggleFullscreen),
        action_for(KeyName::Escape, ctrl, shift) == Some(AppAction::Escape),
        action_for(KeyName::LowerQ, ctrl, shift) == Some(AppAction::Quit),
        action_for(KeyName::UpperQ, ctrl, shift) == Some(AppAction::Quit),
        action_for(KeyName::Other, ctrl, shift) == None::<AppAction>,
{
}

/// Modifiers change what a key asks for only for the Up and Down arrows
/// (Control), `r`, `R`, `?` and `/` (Shift): every other key asks for the
/// same whatever is held.
pub proof fn lemma_modifiers_matter_only_for_some_keys(key: KeyName, c1: bool, s1: bool, c2: bool, s2: bool)
    requires
        key != KeyName::Up,
        key != KeyName::Down,
        key != KeyName::LowerR,
        key != KeyName::UpperR,
        key != KeyName::Question,
        key != KeyName::Slash,
    ensures
        action_for(key, c1, s1) == action_for(key, c2, s2),
{
}

} // verus!
