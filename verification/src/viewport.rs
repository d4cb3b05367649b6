use vstd::prelude::*;

verus! {

/// The aspect ratios the crop frame can be held to.
#[derive(Debug, Clone, Copy, PartialEq, Eq)]
pub enum CropRatio {
    Freeform,
    Square,
    SixteenNine,
    FourThree,
}

impl CropRatio {
    /// Width over height as a fraction, or none for a free crop.
    pub fn aspect(&self) -> (r: Option<(u32, u32)>)
        ensures
            r == match *self {
                CropRatio::Freeform => None,
                CropRatio::Square => Some((1u32, 1u32)),
                CropRatio::SixteenNine => Some((16u32, 9u32)),
                CropRatio::FourThree => Some((4u32, 3u32)),
            },
    {
        match self {
            CropRatio::Freeform => None,
            CropRatio::Square => Some((1, 1)),
            CropRatio::SixteenNine => Some((16, 9)),
            CropRatio::FourThree => Some((4, 3)),
        }
    }
}

/// What a double click on the image did.
#[derive(Debug, Clone, Copy, PartialEq, Eq)]
pub enum DoubleClick {
    /// In crop mode: the crop frame was applied and crop mode left.
    AppliedCrop,
    /// The fitted image was shown at its actual size.
    ActualSize,
    /// The image was fitted to the window again.
    Fitted,
}

/// The viewer's modes: whether it is cropping, the ratio the crop frame is
/// held to, and whether the image is fitted to the window (rather than at a
/// zoom of its own).
pub struct ViewportMode {
    crop_mode: bool,
    crop_ratio: CropRatio,
    fit: bool,
}

impl ViewportMode {
    /// Whether the viewer is in crop mode.
    pub closed spec fn cropping(&self) -> bool {
        self.crop_mode
    }

    /// The ratio the crop frame is held to.
    pub closed spec fn ratio(&self) -> CropRatio {
        self.crop_ratio
    }

    /// Whether the image is fitted to the window.
    pub closed spec fn fitted(&self) -> bool {
        self.fit
    }

    /// Not cropping, free ratio, fitted.
    pub fn new() -> (m: Self)
        ensures
            !m.cropping(),
            m.ratio() == CropRatio::Freeform,
            m.fitted(),
    {
        ViewportMode { crop_mode: false, crop_ratio: CropRatio::Freeform, fit: true }
    }

    /// Whether the viewer is in crop mode.
    pub fn is_in_crop_mode(&self) -> (r: bool)
        ensures
            r == self.cropping(),
    {
        self.crop_mode
    }

    /// The ratio the crop frame is held to.
    pub fn crop_ratio(&self) -> (r: CropRatio)
        ensures
            r == self.ratio(),
    {
        self.crop_ratio
    }

    /// Whether the image is fitted to the window.
    pub fn is_fit(&self) -> (r: bool)
        ensures
            r == self.fitted(),
    {
        self.fit
    }

    /// A new image is shown: crop mode ends and the image is fitted.
    pub fn set_image(&mut self)
        ensures
            !final(self).cropping(),
            final(self).fitted(),
            final(self).ratio() == old(self).ratio(),
    {
        self.crop_mode = false;
        self.fit = true;
    }

    /// Enters or leaves crop mode; entering starts with a free ratio (and a
    /// fresh frame). Gives whether crop mode is now on.
    pub fn toggle_crop(&mut self) -> (active: bool)
        ensures
            active == !old(self).cropping(),
            final(self).cropping() == active,
            final(self).ratio() == if active { CropRatio::Freeform } else { old(self).ratio() },
            final(self).fitted() == old(self).fitted(),
    {
        self.crop_mode = !self.crop_mode;
        if self.crop_mode {
            self.crop_ratio = CropRatio::Freeform;
        }
        self.crop_mode
    }

    /// Holds the crop frame to `ratio`.
    pub fn set_crop_ratio(&mut self, ratio: CropRatio)
        ensures
            final(self).ratio() == ratio,
            final(self).cropping() == old(self).cropping(),
            final(self).fitted() == old(self).fitted(),
    {
        self.crop_ratio = ratio;
    }

    /// Applies the crop frame when in crop mode, leaving crop mode; gives
    /// whether a crop was applied.
    pub fn apply_crop(&mut self) -> (applied: bool)
        ensures
            applied == old(self).cropping(),
            !final(self).cropping(),
            final(self).ratio() == old(self).ratio(),
            final(self).fitted() == old(self).fitted(),
    {
        if self.crop_mode {
            self.crop_mode = false;
            true
        } else {
            false
        }
    }

    /// Leaves crop mode without applying the frame.
    pub fn cancel_crop(&mut self)
        ensures
            !final(self).cropping(),
            final(self).ratio() == old(self).ratio(),
            final(self).fitted() == old(self).fitted(),
    {
        self.crop_mode = false;
    }

    /// A double click: applies the crop in crop mode, and otherwise switches
    /// between the fitted image and its actual size.
    pub fn double_click(&mut self) -> (r: DoubleClick)
        ensures
            old(self).cropping() ==> r == DoubleClick::AppliedCrop && !final(self).cropping()
                && final(self).fitted() == old(self).fitted(),
            !old(self).cropping() && old(self).fitted() ==> r == DoubleClick::ActualSize && !final(self).fitted()
                && !final(self).cropping(),
            !old(self).cropping() && !old(self).fitted() ==> r == DoubleClick::Fitted && final(self).fitted()
                && !final(self).cropping(),
            final(self).ratio() == old(self).ratio(),
    {
        if self.crop_mode {
            self.crop_mode = false;
            DoubleClick::AppliedCrop
        } else if self.fit {
            self.fit = false;
            DoubleClick::ActualSize
        } else {
            self.fit = true;
            DoubleClick::Fitted
        }
    }

    /// A zoom step, a zoom to actual size, or panning the image: the image
    /// is no longer fitted.
    pub fn zoom_manually(&mut self)
        ensures
            !final(self).fitted(),
            final(self).cropping() == old(self).cropping(),
            final(self).ratio() == old(self).ratio(),
    {
        self.fit = false;
    }

    /// Fits the image to the window again.
    pub fn zoom_fit(&mut self)
        ensures
            final(self).fitted(),
            final(self).cropping() == old(self).cropping(),
            final(self).ratio() == old(self).ratio(),
    {
        self.fit = true;
    }

    /// A scroll over the image: zooms (the image is no longer fitted) unless
    /// the viewer is cropping, when the scroll is left to others. Gives
    /// whether the scroll zoomed.
    pub fn scroll_zoom(&mut self) -> (zoomed: bool)
        ensures
            zoomed == !old(self).cropping(),
            zoomed ==> !final(self).fitted(),
            !zoomed ==> final(self).fitted() == old(self).fitted(),
            final(self).cropping() == old(self).cropping(),
            final(self).ratio() == old(self).ratio(),
    {
        if self.crop_mode {
            false
        } else {
            self.fit = false;
            true
        }
    }
}

} // verus!
