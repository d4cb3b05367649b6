use vstd::prelude::*;

verus! {

/// The state of the non-destructive edits of the open image: rotation in
/// degrees (0, 90, 180 or 270), the two flips, whether a crop is applied and
/// whether any color adjustment (exposure, contrast, saturation, warmth) is
/// away from zero.
#[derive(Debug, Clone, Copy, PartialEq, Eq)]
pub struct ImageEdits {
    pub rotation: u16,
    pub flip_h: bool,
    pub flip_v: bool,
    pub cropped: bool,
    pub adjusted: bool,
}

/// The rotation after one clockwise quarter turn.
pub open spec fn rotated_cw(rotation: int) -> int {
    (rotation + 90) % 360
}

/// The rotation after one counter-clockwise quarter turn.
pub open spec fn rotated_ccw(rotation: int) -> int {
    (rotation + 270) % 360
}

/// One of the four right-angle rotations.
pub open spec fn is_quarter_turn(rotation: int) -> bool {
    rotation == 0 || rotation == 90 || rotation == 180 || rotation == 270
}

impl Default for ImageEdits {
    fn default() -> (e: Self)
        ensures
            e.rotation == 0 && !e.flip_h && !e.flip_v && !e.cropped && !e.adjusted,
    {
        ImageEdits { rotation: 0, flip_h: false, flip_v: false, cropped: false, adjusted: false }
    }
}

impl ImageEdits {
    /// True when the geometry differs from the original image.
    pub open spec fn geometry_edited(&self) -> bool {
        self.rotation != 0 || self.flip_h || self.flip_v || self.cropped
    }

    /// True when any color adjustment is away from zero.
    pub fn has_adjustments(&self) -> (r: bool)
        ensures
            r == self.adjusted,
    {
        self.adjusted
    }

    /// True when the image is rotated, flipped or cropped.
    pub fn has_geometry_edits(&self) -> (r: bool)
        ensures
            r == self.geometry_edited(),
    {
        self.rotation != 0 || self.flip_h || self.flip_v || self.cropped
    }

    /// True when there is anything to save.
    pub fn has_any_edits(&self) -> (r: bool)
        ensures
            r == (self.adjusted || self.geometry_edited()),
    {
        self.has_adjustments() || self.has_geometry_edits()
    }

    /// Turns the image a quarter clockwise.
    pub fn rotate_cw(&mut self)
        requires
            old(self).rotation + 90 <= u16::MAX,
        ensures
            final(self).rotation == rotated_cw(old(self).rotation as int),
            final(self).flip_h == old(self).flip_h,
            final(self).flip_v == old(self).flip_v,
            final(self).cropped == old(self).cropped,
            final(self).adjusted == old(self).adjusted,
    {
        self.rotation = (self.rotation + 90) % 360;
    }

    /// Turns the image a quarter counter-clockwise.
    pub fn rotate_ccw(&mut self)
        requires
            old(self).rotation + 270 <= u16::MAX,
        ensures
            final(self).rotation == rotated_ccw(old(self).rotation as int),
            final(self).flip_h == old(self).flip_h,
            final(self).flip_v == old(self).flip_v,
            final(self).cropped == old(self).cropped,
            final(self).adjusted == old(self).adjusted,
    {
        self.rotation = (self.rotation + 270) % 360;
    }

    /// Mirrors the image left to right, or back.
    pub fn toggle_flip_h(&mut self)
        ensures
            final(self).flip_h == !old(self).flip_h,
            final(self).rotation == old(self).rotation,
            final(self).flip_v == old(self).flip_v,
            final(self).cropped == old(self).cropped,
            final(self).adjusted == old(self).adjusted,
    {
        self.flip_h = !self.flip_h;
    }

    /// Mirrors the image top to bottom, or back.
    pub fn toggle_flip_v(&mut self)
        ensures
            final(self).flip_v == !old(self).flip_v,
            final(self).rotation == old(self).rotation,
            final(self).flip_h == old(self).flip_h,
            final(self).cropped == old(self).cropped,
            final(self).adjusted == old(self).adjusted,
    {
        self.flip_v = !self.flip_v;
    }

    /// Sets every color adjustment back to zero.
    pub fn reset_adjustments(&mut self)
        ensures
            !final(self).adjusted,
            final(self).rotation == old(self).rotation,
            final(self).flip_h == old(self).flip_h,
            final(self).flip_v == old(self).flip_v,
            final(self).cropped == old(self).cropped,
    {
        self.adjusted = false;
    }

    /// Drops every edit.
    pub fn reset_all(&mut self)
        ensures
            final(self).rotation == 0,
            !final(self).flip_h && !final(self).flip_v && !final(self).cropped,
            !final(self).adjusted,
    {
        *self = Self::default();
    }
}

#[verifier::external_type_specification]
#[verifier::external_body]
pub struct ExDynamicImage(image::DynamicImage);

/// The width and height, in pixels, that an image was made with.
pub uninterp spec fn image_size(img: image::DynamicImage) -> (u32, u32);

/// The pixels an image holds, each as 8-bit RGBA (what the image crate's
/// `GenericImageView::get_pixel` gives for `DynamicImage`), by (x, y); only
/// the points inside the image's size are meant.
pub uninterp spec fn image_pixels(img: image::DynamicImage) -> Map<(int, int), (u8, u8, u8, u8)>;

/// Whether (`x`, `y`) lies inside an image of size `size`.
pub open spec fn inside(size: (u32, u32), x: int, y: int) -> bool {
    0 <= x < size.0 && 0 <= y < size.1
}

/// What `DynamicImage::crop_imm` returns for these arguments.
pub uninterp spec fn cropped(img: image::DynamicImage, x: u32, y: u32, width: u32, height: u32) -> image::DynamicImage;

/// What `DynamicImage::rotate90` returns for the image.
pub uninterp spec fn turned_quarter(img: image::DynamicImage) -> image::DynamicImage;

/// What `DynamicImage::rotate180` returns for the image.
pub uninterp spec fn turned_half(img: image::DynamicImage) -> image::DynamicImage;

/// What `DynamicImage::rotate270` returns for the image.
pub uninterp spec fn turned_three_quarters(img: image::DynamicImage) -> image::DynamicImage;

/// What `DynamicImage::fliph` returns for the image.
pub uninterp spec fn mirrored_h(img: image::DynamicImage) -> image::DynamicImage;

/// What `DynamicImage::flipv` returns for the image.
pub uninterp spec fn mirrored_v(img: image::DynamicImage) -> image::DynamicImage;

/// A copy of the image (`DynamicImage::clone`): the same image.
#[verifier::external_body]
fn copy_image(img: &image::DynamicImage) -> (r: image::DynamicImage)
    ensures
        r == *img,
{
    img.clone()
}

/// Where the image crate's `crop_imm` puts the corner of a cut-out of an
/// image of size `size`: held inside the image.
pub open spec fn crop_origin(size: (u32, u32), x: u32, y: u32) -> (u32, u32) {
    (if x < size.0 { x } else { size.0 }, if y < size.1 { y } else { size.1 })
}

/// The size of the cut-out that the image crate's `crop_imm` makes of an
/// image of size `size`: the corner is held inside the image and the
/// rectangle to what is left of it.
pub open spec fn crop_size(size: (u32, u32), x: u32, y: u32, width: u32, height: u32) -> (u32, u32) {
    let o = crop_origin(size, x, y);
    (
        if width < size.0 - o.0 { width } else { (size.0 - o.0) as u32 },
        if height < size.1 - o.1 { height } else { (size.1 - o.1) as u32 },
    )
}

/// The rectangle at (`x`, `y`) of `width` by `height` pixels, cut out of the
/// image (`DynamicImage::crop_imm`, which holds the rectangle inside the
/// image): its size is [`crop_size`] and its pixel (i, j) is the image's
/// pixel at the corner plus (i, j).
#[verifier::external_body]
fn crop_image(img: &image::DynamicImage, x: u32, y: u32, width: u32, height: u32) -> (r: image::DynamicImage)
    ensures
        r == cropped(*img, x, y, width, height),
        image_size(r) == crop_size(image_size(*img), x, y, width, height),
        forall|i: int, j: int|
            inside(image_size(r), i, j) ==> #[trigger] image_pixels(r)[(i, j)] == image_pixels(*img)[(crop_origin(image_size(*img), x, y).0 + i, crop_origin(image_size(*img), x, y).1 + j)],
{
    img.crop_imm(x, y, width, height)
}

/// The image turned a quarter clockwise (`DynamicImage::rotate90`): width
/// and height swap, and pixel (x, y) of the result is the image's pixel
/// (y, height - 1 - x).
#[verifier::external_body]
fn rotate_quarter(img: &image::DynamicImage) -> (r: image::DynamicImage)
    ensures
        r == turned_quarter(*img),
        image_size(r) == (image_size(*img).1, image_size(*img).0),
        forall|x: int, y: int|
            inside(image_size(r), x, y) ==> #[trigger] image_pixels(r)[(x, y)] == image_pixels(*img)[(y, image_size(*img).1 - 1 - x)],
{
    img.rotate90()
}

/// The image turned half around (`DynamicImage::rotate180`): the same size,
/// and pixel (x, y) of the result is the image's pixel
/// (width - 1 - x, height - 1 - y).
#[verifier::external_body]
fn rotate_half(img: &image::DynamicImage) -> (r: image::DynamicImage)
    ensures
        r == turned_half(*img),
        image_size(r) == image_size(*img),
        forall|x: int, y: int|
            inside(image_size(r), x, y) ==> #[trigger] image_pixels(r)[(x, y)] == image_pixels(*img)[(image_size(*img).0 - 1 - x, image_size(*img).1 - 1 - y)],
{
    img.rotate180()
}

/// The image turned three quarters clockwise (`DynamicImage::rotate270`):
/// width and height swap, and pixel (x, y) of the result is the image's
/// pixel (width - 1 - y, x).
#[verifier::external_body]
fn rotate_three_quarters(img: &image::DynamicImage) -> (r: image::DynamicImage)
    ensures
        r == turned_three_quarters(*img),
        image_size(r) == (image_size(*img).1, image_size(*img).0),
        forall|x: int, y: int|
            inside(image_size(r), x, y) ==> #[trigger] image_pixels(r)[(x, y)] == image_pixels(*img)[(image_size(*img).0 - 1 - y, x)],
{
    img.rotate270()
}

/// The image mirrored left to right (`DynamicImage::fliph`): the same size,
/// and pixel (x, y) of the result is the image's pixel (width - 1 - x, y).
#[verifier::external_body]
fn mirror_horizontally(img: &image::DynamicImage) -> (r: image::DynamicImage)
    ensures
        r == mirrored_h(*img),
        image_size(r) == image_size(*img),
        forall|x: int, y: int|
            inside(image_size(r), x, y) ==> #[trigger] image_pixels(r)[(x, y)] == image_pixels(*img)[(image_size(*img).0 - 1 - x, y)],
{
    img.fliph()
}

/// The image mirrored top to bottom (`DynamicImage::flipv`): the same size,
/// and pixel (x, y) of the result is the image's pixel (x, height - 1 - y).
#[verifier::external_body]
fn mirror_vertically(img: &image::DynamicImage) -> (r: image::DynamicImage)
    ensures
        r == mirrored_v(*img),
        image_size(r) == image_size(*img),
        forall|x: int, y: int|
            inside(image_size(r), x, y) ==> #[trigger] image_pixels(r)[(x, y)] == image_pixels(*img)[(x, image_size(*img).1 - 1 - y)],
{
    img.flipv()
}

/// The rotation step: a quarter, half or three-quarter clockwise turn for
/// 90, 180 and 270 degrees; any other value turns nothing.
pub open spec fn turned(img: image::DynamicImage, rotation: u16) -> image::DynamicImage {
    if rotation == 90 {
        turned_quarter(img)
    } else if rotation == 180 {
        turned_half(img)
    } else if rotation == 270 {
        turned_three_quarters(img)
    } else {
        img
    }
}

/// The image the geometry edits make of `base`: cropped to the pixel
/// rectangle (or copied), turned, mirrored left to right when `flip_h`,
/// then top to bottom when `flip_v`.
pub open spec fn edited_image(
    base: image::DynamicImage,
    crop: Option<(u32, u32, u32, u32)>,
    edits: ImageEdits,
) -> image::DynamicImage {
    let c = match crop {
        Some(r) => cropped(base, r.0, r.1, r.2, r.3),
        None => base,
    };
    let t = turned(c, edits.rotation);
    let h = if edits.flip_h { mirrored_h(t) } else { t };
    if edits.flip_v { mirrored_v(h) } else { h }
}

/// The size after a rotation by `rotation` degrees: a quarter or three
/// quarters of a turn swap width and height; other rotations turn nothing
/// or keep the shape.
pub open spec fn rotated_size(size: (u32, u32), rotation: u16) -> (u32, u32) {
    if rotation == 90 || rotation == 270 { (size.1, size.0) } else { size }
}

/// The size of the image after the crop, when there is one.
pub open spec fn cropped_size(size: (u32, u32), crop: Option<(u32, u32, u32, u32)>) -> (u32, u32) {
    match crop {
        Some(c) => crop_size(size, c.0, c.1, c.2, c.3),
        None => size,
    }
}

/// The size of the edited image: cropped to the pixel rectangle, when there
/// is one, then rotated.
pub open spec fn edited_size(size: (u32, u32), crop: Option<(u32, u32, u32, u32)>, rotation: u16) -> (u32, u32) {
    rotated_size(cropped_size(size, crop), rotation)
}

/// The point of a `size` image that a turn by `rotation` degrees brings to
/// (x, y).
pub open spec fn unturned(size: (u32, u32), rotation: u16, x: int, y: int) -> (int, int) {
    if rotation == 90 {
        (y, size.1 - 1 - x)
    } else if rotation == 180 {
        (size.0 - 1 - x, size.1 - 1 - y)
    } else if rotation == 270 {
        (size.0 - 1 - y, x)
    } else {
        (x, y)
    }
}

/// The point of the base image (of size `size`) that the geometry edits
/// bring to (x, y) of the edited image: undo the flips, the turn, then the
/// crop.
pub open spec fn source_point(
    size: (u32, u32),
    crop: Option<(u32, u32, u32, u32)>,
    edits: ImageEdits,
    x: int,
    y: int,
) -> (int, int) {
    let cs = cropped_size(size, crop);
    let rs = rotated_size(cs, edits.rotation);
    let y1 = if edits.flip_v { rs.1 - 1 - y } else { y };
    let x1 = if edits.flip_h { rs.0 - 1 - x } else { x };
    let p = unturned(cs, edits.rotation, x1, y1);
    match crop {
        Some(c) => (crop_origin(size, c.0, c.1).0 + p.0, crop_origin(size, c.0, c.1).1 + p.1),
        None => p,
    }
}

/// The geometry edits applied to an image, in the order the viewer applies
/// them: the crop (given as a pixel rectangle `(x, y, width, height)`), the
/// rotation (90, 180 or 270 degrees clockwise; any other value turns
/// nothing), then the horizontal and the vertical flip. The result is
/// [`edited_image`]; its size is [`edited_size`], and each of its pixels is
/// the base image's pixel at [`source_point`].
pub fn apply_geometry(
    base: &image::DynamicImage,
    crop: Option<(u32, u32, u32, u32)>,
    edits: &ImageEdits,
) -> (out: image::DynamicImage)
    ensures
        out == edited_image(*base, crop, *edits),
        image_size(out) == edited_size(image_size(*base), crop, edits.rotation),
        forall|x: int, y: int|
            inside(image_size(out), x, y) ==> #[trigger] image_pixels(out)[(x, y)] == image_pixels(*base)[
                source_point(image_size(*base), crop, *edits, x, y)],
{
    let c = match crop {
        Some((x, y, w, h)) => crop_image(base, x, y, w, h),
        None => copy_image(base),
    };
    let ghost c0 = c;
    let ghost bs = image_size(*base);
    let ghost cs = cropped_size(bs, crop);
    assert(image_size(c) == cs);
    assert forall|x: int, y: int| inside(cs, x, y) implies #[trigger] image_pixels(c)[(x, y)] == image_pixels(*base)[(match crop {
            Some(r) => crop_origin(bs, r.0, r.1).0 + x,
            None => x,
        }, match crop {
            Some(r) => crop_origin(bs, r.0, r.1).1 + y,
            None => y,
        })] by {}
    let t = if edits.rotation == 90 {
        rotate_quarter(&c)
    } else if edits.rotation == 180 {
        rotate_half(&c)
    } else if edits.rotation == 270 {
        rotate_three_quarters(&c)
    } else {
        c
    };
    let ghost t0 = t;
    let ghost rs = rotated_size(cs, edits.rotation);
    assert(image_size(t) == rs);
    assert(t == turned(c0, edits.rotation));
    assert forall|x: int, y: int| inside(rs, x, y) implies #[trigger] image_pixels(t)[(x, y)] == image_pixels(c0)[unturned(cs, edits.rotation, x, y)] by {}
    let h = if edits.flip_h { mirror_horizontally(&t) } else { t };
    let ghost h0 = h;
    assert forall|x: int, y: int| inside(rs, x, y) implies #[trigger] image_pixels(h)[(x, y)] == image_pixels(t0)[(if edits.flip_h { rs.0 - 1 - x } else { x }, y)] by {}
    let v = if edits.flip_v { mirror_vertically(&h) } else { h };
    assert forall|x: int, y: int| inside(rs, x, y) implies #[trigger] image_pixels(v)[(x, y)] == image_pixels(h0)[(x, if edits.flip_v { rs.1 - 1 - y } else { y })] by {}
    assert forall|x: int, y: int| inside(rs, x, y) implies #[trigger] image_pixels(v)[(x, y)] == image_pixels(*base)[source_point(bs, crop, *edits, x, y)] by {
        let y1 = if edits.flip_v { rs.1 - 1 - y } else { y };
        let x1 = if edits.flip_h { rs.0 - 1 - x } else { x };
        assert(inside(rs, x, y1));
        assert(image_pixels(h0)[(x, y1)] == image_pixels(t0)[(x1, y1)]);
        assert(inside(rs, x1, y1));
        let p = unturned(cs, edits.rotation, x1, y1);
        assert(image_pixels(t0)[(x1, y1)] == image_pixels(c0)[(p.0, p.1)]);
        assert(inside(cs, p.0, p.1));
    }
    v
}

/// With no crop, no turn and no flip the geometry edits give back the base
/// image itself, every pixel in its place.
pub proof fn lemma_no_edit_keeps_image(base: image::DynamicImage, edits: ImageEdits)
    requires
        edits.rotation == 0,
        !edits.flip_h,
        !edits.flip_v,
    ensures
        edited_image(base, None, edits) == base,
        forall|x: int, y: int| #[trigger] source_point(image_size(base), None, edits, x, y) == (x, y),
{
}

/// Every rotation a quarter turn produces is a right angle.
pub proof fn lemma_rotation_stays_quarter_turn(rotation: int)
    requires
        is_quarter_turn(rotation),
    ensures
        is_quarter_turn(rotated_cw(rotation)),
        is_quarter_turn(rotated_ccw(rotation)),
{
}

/// Four clockwise quarter turns come back to where they started.
pub proof fn lemma_four_turns_return(rotation: int)
    requires
        0 <= rotation < 360,
    ensures
        rotated_cw(rotated_cw(rotated_cw(rotated_cw(rotation)))) == rotation,
{
}

/// A clockwise and a counter-clockwise quarter turn undo each other.
pub proof fn lemma_turns_undo_each_other(rotation: int)
    requires
        0 <= rotation < 360,
    ensures
        rotated_ccw(rotated_cw(rotation)) == rotation,
        rotated_cw(rotated_ccw(rotation)) == rotation,
{
}

/// After all edits are dropped there is nothing to save.
pub proof fn lemma_reset_leaves_nothing_to_save(e: ImageEdits)
    requires
        e.rotation == 0 && !e.flip_h && !e.flip_v && !e.cropped && !e.adjusted,
    ensures
        !(e.adjusted || e.geometry_edited()),
{
}

/// The same edits without the flips.
pub open spec fn unflipped(e: ImageEdits) -> ImageEdits {
    ImageEdits { rotation: e.rotation, flip_h: false, flip_v: false, cropped: e.cropped, adjusted: e.adjusted }
}

/// The same edits without the flips and the turn.
pub open spec fn unturned_edits(e: ImageEdits) -> ImageEdits {
    ImageEdits { rotation: 0, flip_h: false, flip_v: false, cropped: e.cropped, adjusted: e.adjusted }
}

/// The geometry edits work in the order crop, turn, flip: with no flips and
/// no turn the result is the cut-out (or the base); the turn acts on that;
/// and the flips act on the turned image: a horizontal flip mirrors the
/// unflipped result left to right, a vertical one top to bottom, both do
/// one after the other.
pub proof fn lemma_edits_in_order(
    base: image::DynamicImage,
    crop: Option<(u32, u32, u32, u32)>,
    e: ImageEdits,
)
    ensures
        edited_image(base, crop, unturned_edits(e)) == (match crop {
            Some(r) => cropped(base, r.0, r.1, r.2, r.3),
            None => base,
        }),
        edited_image(base, crop, unflipped(e)) == turned(edited_image(base, crop, unturned_edits(e)), e.rotation),
        e.flip_h && !e.flip_v ==> edited_image(base, crop, e) == mirrored_h(edited_image(base, crop, unflipped(e))),
        !e.flip_h && e.flip_v ==> edited_image(base, crop, e) == mirrored_v(edited_image(base, crop, unflipped(e))),
        e.flip_h && e.flip_v ==> edited_image(base, crop, e) == mirrored_v(
            mirrored_h(edited_image(base, crop, unflipped(e))),
        ),
        !e.flip_h && !e.flip_v ==> edited_image(base, crop, e) == edited_image(base, crop, unflipped(e)),
{
}

/// Pixel by pixel, the flips mirror the unflipped result: with a
/// horizontal flip, pixel (x, y) of a result `w` wide comes from where
/// pixel (w - 1 - x, y) of the unflipped result does; with a vertical flip,
/// from where (x, h - 1 - y) does.
pub proof fn lemma_flips_mirror_the_result(
    size: (u32, u32),
    crop: Option<(u32, u32, u32, u32)>,
    e: ImageEdits,
    x: int,
    y: int,
)
    ensures
        ({
            let out = edited_size(size, crop, e.rotation);
            let x1 = if e.flip_h { out.0 - 1 - x } else { x };
            let y1 = if e.flip_v { out.1 - 1 - y } else { y };
            source_point(size, crop, e, x, y) == source_point(size, crop, unflipped(e), x1, y1)
        }),
{
}

/// Where the pixels of an uncropped `w` by `h` image go: a quarter turn
/// clockwise brings base pixel (y, h - 1 - x) to (x, y), a half turn
/// (w - 1 - x, h - 1 - y), three quarters (w - 1 - y, x), no turn (x, y).
/// A quarter turn then a horizontal flip transposes the image: (x, y) comes
/// from (y, x); a half turn with both flips gives the image back. Quarter
/// and three-quarter turns swap width and height; other turns keep them.
pub proof fn lemma_turn_moves_pixels(size: (u32, u32), e: ImageEdits, x: int, y: int)
    ensures
        !e.flip_h && !e.flip_v && e.rotation == 90 ==> source_point(size, None, e, x, y) == (y, size.1 - 1 - x),
        !e.flip_h && !e.flip_v && e.rotation == 180 ==> source_point(size, None, e, x, y) == (
            size.0 - 1 - x,
            size.1 - 1 - y,
        ),
        !e.flip_h && !e.flip_v && e.rotation == 270 ==> source_point(size, None, e, x, y) == (size.0 - 1 - y, x),
        !e.flip_h && !e.flip_v && e.rotation != 90 && e.rotation != 180 && e.rotation != 270 ==> source_point(
            size,
            None,
            e,
            x,
            y,
        ) == (x, y),
        e.flip_h && !e.flip_v && e.rotation == 90 ==> source_point(size, None, e, x, y) == (y, x),
        e.flip_h && e.flip_v && e.rotation == 180 ==> source_point(size, None, e, x, y) == (x, y),
        e.rotation == 90 || e.rotation == 270 ==> edited_size(size, None, e.rotation) == (size.1, size.0),
        e.rotation != 90 && e.rotation != 270 ==> edited_size(size, None, e.rotation) == size,
{
}

/// A crop shifts every source pixel by the cut-out's corner: the edits of
/// the cut-out, placed at its corner in the base image.
pub proof fn lemma_crop_shifts_pixels(
    size: (u32, u32),
    c: (u32, u32, u32, u32),
    e: ImageEdits,
    x: int,
    y: int,
)
    ensures
        ({
            let o = crop_origin(size, c.0, c.1);
            let inner = source_point(crop_size(size, c.0, c.1, c.2, c.3), None, e, x, y);
            source_point(size, Some(c), e, x, y) == (o.0 + inner.0, o.1 + inner.1)
        }),
{
}

} // verus!
