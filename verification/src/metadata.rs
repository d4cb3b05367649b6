use vstd::prelude::*;
use crate::text::{chars_of, decimal, push_decimal, push_str, string_from_chars};

verus! {

/// The camera details read from a photo's EXIF data.
pub struct ExifInfo {
    pub make: Option<String>,
    pub model: Option<String>,
    pub lens: Option<String>,
    pub focal_length: Option<String>,
    pub aperture: Option<String>,
    pub exposure_time: Option<String>,
    pub iso: Option<String>,
    pub datetime: Option<String>,
}

/// The EXIF fields the viewer shows, each from the primary image.
#[derive(Clone, Copy)]
pub enum ExifTag {
    Make,
    Model,
    LensModel,
    FocalLength,
    FNumber,
    ExposureTime,
    PhotographicSensitivity,
    DateTimeOriginal,
}

#[verifier::external_type_specification]
#[verifier::external_body]
pub struct ExExif(exif::Exif);

#[verifier::external_type_specification]
#[verifier::external_body]
pub struct ExExifField(exif::Field);

/// What kamadak-exif's `Reader::read_from_container` (with the default
/// reader settings) reads from these file bytes, as the displayed value of
/// each field it finds, by key (see [`exif_displays`]); `None` when the bytes
/// are no TIFF, JPEG, PNG, HEIF or WebP container holding valid EXIF
/// attributes. It depends on the bytes alone.
pub uninterp spec fn exif_read(data: Seq<u8>) -> Option<Map<(u16, u8, u16), Seq<char>>>;

/// The fields that a parsed EXIF block holds (kamadak-exif's `Exif` keeps
/// its fields by image number and tag), as the displayed value of each
/// (`Field::display_value`, formatted), by key: (image number, tag context,
/// tag number) with the context numbered 0 for TIFF, 1 for Exif, 2 for GPS
/// and 3 for interoperability attributes.
pub uninterp spec fn exif_displays(exif: exif::Exif) -> Map<(u16, u8, u16), Seq<char>>;

/// What kamadak-exif's `Field::display_value` shows for a field, formatted
/// as text.
pub uninterp spec fn field_display(field: exif::Field) -> Seq<char>;

/// Parses the EXIF attributes of an image file's bytes (kamadak-exif's
/// `Reader::read_from_container`, over an in-memory reader); `None` when the
/// container is unknown or holds no readable EXIF data. The parsed block
/// holds the fields [`exif_read`] names.
#[verifier::external_body]
fn read_exif(data: &[u8]) -> (r: Option<exif::Exif>)
    ensures
        match r {
            Some(e) => exif_read(data@) == Some(exif_displays(e)),
            None => exif_read(data@) is None,
        },
{
    exif::Reader::new().read_from_container(&mut std::io::Cursor::new(data)).ok()
}

/// The key of the primary image's field for `tag` (image 0; Make and Model
/// are TIFF attributes 0x10f and 0x110, the others Exif attributes).
pub open spec fn primary_key(tag: ExifTag) -> (u16, u8, u16) {
    match tag {
        ExifTag::Make => (0, 0, 0x10f),
        ExifTag::Model => (0, 0, 0x110),
        ExifTag::LensModel => (0, 1, 0xa434),
        ExifTag::FocalLength => (0, 1, 0x920a),
        ExifTag::FNumber => (0, 1, 0x829d),
        ExifTag::ExposureTime => (0, 1, 0x829a),
        ExifTag::PhotographicSensitivity => (0, 1, 0x8827),
        ExifTag::DateTimeOriginal => (0, 1, 0x9003),
    }
}

/// The field for `tag` in the primary image (kamadak-exif's
/// `Exif::get_field` with `In::PRIMARY`): present exactly when the block
/// holds a field under that key, and then the field whose displayed value
/// the block holds there.
#[verifier::external_body]
fn exif_get_field(exif: &exif::Exif, tag: ExifTag) -> (r: Option<&exif::Field>)
    ensures
        (r is Some) == exif_displays(*exif).contains_key(primary_key(tag)),
        r matches Some(f) ==> field_display(*f) == exif_displays(*exif)[primary_key(tag)],
{
    let t = match tag {
        ExifTag::Make => exif::Tag::Make,
        ExifTag::Model => exif::Tag::Model,
        ExifTag::LensModel => exif::Tag::LensModel,
        ExifTag::FocalLength => exif::Tag::FocalLength,
        ExifTag::FNumber => exif::Tag::FNumber,
        ExifTag::ExposureTime => exif::Tag::ExposureTime,
        ExifTag::PhotographicSensitivity => exif::Tag::PhotographicSensitivity,
        ExifTag::DateTimeOriginal => exif::Tag::DateTimeOriginal,
    };
    exif.get_field(t, exif::In::PRIMARY)
}

/// The field's value as text (kamadak-exif's `Field::display_value`,
/// formatted).
#[verifier::external_body]
fn exif_display_value(field: &exif::Field) -> (r: String)
    ensures
        r@ == field_display(*field),
{
    field.display_value().to_string()
}

/// `s` without every leading and trailing `"`.
pub open spec fn trim_quotes(s: Seq<char>) -> Seq<char>
    decreases s.len(),
{
    if s.len() > 0 && s[0] == '"' {
        trim_quotes(s.drop_first())
    } else if s.len() > 0 && s.last() == '"' {
        trim_quotes(s.drop_last())
    } else {
        s
    }
}

/// A present value between a prefix and a suffix.
pub open spec fn map_text(v: Option<Seq<char>>, prefix: Seq<char>, suffix: Seq<char>) -> Option<Seq<char>> {
    match v {
        Some(t) => Some(prefix + t + suffix),
        None => None,
    }
}

/// A present value without its surrounding quotes.
pub open spec fn unquoted(v: Option<Seq<char>>) -> Option<Seq<char>> {
    match v {
        Some(t) => Some(trim_quotes(t)),
        None => None,
    }
}

/// The view of an optional string.
pub open spec fn opt_text(v: Option<String>) -> Option<Seq<char>> {
    match v {
        Some(s) => Some(s@),
        None => None,
    }
}

/// The EXIF details for the displayed values of the fields Make, Model,
/// LensModel, FocalLength, FNumber, ExposureTime, PhotographicSensitivity and
/// DateTimeOriginal: text fields lose their quotes, the aperture reads
/// "f/…", the exposure "…s" and the sensitivity "ISO …".
pub open spec fn exif_info_matches(info: ExifInfo, d: Seq<Option<Seq<char>>>) -> bool {
    &&& d.len() == 8
    &&& opt_text(info.make) == unquoted(d[0])
    &&& opt_text(info.model) == unquoted(d[1])
    &&& opt_text(info.lens) == unquoted(d[2])
    &&& opt_text(info.focal_length) == d[3]
    &&& opt_text(info.aperture) == map_text(d[4], "f/"@, Seq::empty())
    &&& opt_text(info.exposure_time) == map_text(d[5], Seq::empty(), "s"@)
    &&& opt_text(info.iso) == map_text(d[6], "ISO "@, Seq::empty())
    &&& opt_text(info.datetime) == d[7]
}

/// `s` without every leading and trailing `"`.
pub fn trim_matches_quote(s: &str) -> (r: String)
    ensures
        r@ == trim_quotes(s@),
{
    let cs = chars_of(s);
    let n = cs.len();
    let mut i: usize = 0;
    let ghost t = cs@;
    assert(t.subrange(0, n as int) =~= t);
    while i < n && cs[i] == '"'
        invariant
            n == t.len(),
            t == cs@,
            i <= n,
            trim_quotes(t) == trim_quotes(t.subrange(i as int, n as int)),
        decreases n - i,
    {
        assert(t.subrange(i as int, n as int).drop_first() =~= t.subrange(i + 1, n as int));
        i = i + 1;
    }
    let mut j: usize = n;
    while j > i && cs[j - 1] == '"'
        invariant
            n == t.len(),
            t == cs@,
            i <= j <= n,
            i < j ==> t[i as int] != '"',
            trim_quotes(t) == trim_quotes(t.subrange(i as int, j as int)),
        decreases j,
    {
        let ghost u = t.subrange(i as int, j as int);
        assert(u.drop_last() =~= t.subrange(i as int, j - 1));
        assert(u[0] == t[i as int]);
        j = j - 1;
    }
    let piece = cs.as_slice().split_at(j).0.split_at(i).1;
    assert(piece@ =~= t.subrange(i as int, j as int));
    string_from_chars(piece)
}

fn prefixed(prefix: &str, v: Option<String>, suffix: &str) -> (r: Option<String>)
    ensures
        opt_text(r) == map_text(opt_text(v), prefix@, suffix@),
{
    match v {
        Some(t) => {
            let mut s = String::new();
            push_str(&mut s, prefix);
            push_str(&mut s, t.as_str());
            push_str(&mut s, suffix);
            assert(s@ =~= prefix@ + t@ + suffix@);
            Some(s)
        },
        None => None,
    }
}

fn unquote(v: Option<String>) -> (r: Option<String>)
    ensures
        opt_text(r) == unquoted(opt_text(v)),
{
    match v {
        Some(t) => Some(trim_matches_quote(t.as_str())),
        None => None,
    }
}

/// The EXIF details from the displayed values of the eight fields, in the
/// order of [`exif_info_matches`].
pub fn exif_info_from_displays(
    make: Option<String>,
    model: Option<String>,
    lens: Option<String>,
    focal_length: Option<String>,
    f_number: Option<String>,
    exposure_time: Option<String>,
    iso: Option<String>,
    datetime: Option<String>,
) -> (info: ExifInfo)
    ensures
        exif_info_matches(
            info,
            seq![
                opt_text(make), opt_text(model), opt_text(lens), opt_text(focal_length),
                opt_text(f_number), opt_text(exposure_time), opt_text(iso), opt_text(datetime),
            ],
        ),
{
    proof {
        reveal_strlit("");
    }
    ExifInfo {
        make: unquote(make),
        model: unquote(model),
        lens: unquote(lens),
        focal_length,
        aperture: prefixed("f/", f_number, ""),
        exposure_time: prefixed("", exposure_time, "s"),
        iso: prefixed("ISO ", iso, ""),
        datetime,
    }
}

/// The value shown under `key` in a map of displayed values, if any.
pub open spec fn shown(texts: Map<(u16, u8, u16), Seq<char>>, key: (u16, u8, u16)) -> Option<Seq<char>> {
    if texts.contains_key(key) { Some(texts[key]) } else { None }
}

/// The displayed value of the primary image's field for `tag`, present
/// exactly when the EXIF block holds that field.
fn field_text(exif: &exif::Exif, tag: ExifTag) -> (r: Option<String>)
    ensures
        opt_text(r) == shown(exif_displays(*exif), primary_key(tag)),
{
    match exif_get_field(exif, tag) {
        Some(f) => Some(exif_display_value(f)),
        None => None,
    }
}

/// The displayed values of the fields Make, Model, LensModel, FocalLength,
/// FNumber, ExposureTime, PhotographicSensitivity and DateTimeOriginal of
/// the primary image, in that order.
pub open spec fn exif_detail_values(texts: Map<(u16, u8, u16), Seq<char>>) -> Seq<Option<Seq<char>>> {
    seq![
        shown(texts, primary_key(ExifTag::Make)),
        shown(texts, primary_key(ExifTag::Model)),
        shown(texts, primary_key(ExifTag::LensModel)),
        shown(texts, primary_key(ExifTag::FocalLength)),
        shown(texts, primary_key(ExifTag::FNumber)),
        shown(texts, primary_key(ExifTag::ExposureTime)),
        shown(texts, primary_key(ExifTag::PhotographicSensitivity)),
        shown(texts, primary_key(ExifTag::DateTimeOriginal)),
    ]
}

/// The EXIF details of an image file, from its bytes; `None` exactly when
/// no EXIF data can be read. The details are those that
/// [`exif_info_from_displays`] makes of the displayed values of the eight
/// fields the parser finds for the primary image ([`exif_detail_values`]).
pub fn extract_exif(data: &[u8]) -> (r: Option<ExifInfo>)
    ensures
        (r is Some) == (exif_read(data@) is Some),
        r matches Some(info) ==> exif_info_matches(info, exif_detail_values(exif_read(data@)->0)),
{
    let exif = match read_exif(data) {
        Some(e) => e,
        None => return None,
    };
    let make = field_text(&exif, ExifTag::Make);
    let model = field_text(&exif, ExifTag::Model);
    let lens = field_text(&exif, ExifTag::LensModel);
    let focal = field_text(&exif, ExifTag::FocalLength);
    let f_number = field_text(&exif, ExifTag::FNumber);
    let exposure = field_text(&exif, ExifTag::ExposureTime);
    let iso = field_text(&exif, ExifTag::PhotographicSensitivity);
    let datetime = field_text(&exif, ExifTag::DateTimeOriginal);
    let ghost d = seq![
        opt_text(make), opt_text(model), opt_text(lens), opt_text(focal), opt_text(f_number),
        opt_text(exposure), opt_text(iso), opt_text(datetime),
    ];
    let info = exif_info_from_displays(make, model, lens, focal, f_number, exposure, iso, datetime);
    assert(d =~= exif_detail_values(exif_read(data@)->0));
    Some(info)
}

/// The metadata pill's text: "name | W×H | zoom% | n/total" (with an ASCII
/// `x`, the index counted from one), or "No image open" when the set is
/// empty. `escaped_name` is the file name already escaped for Pango markup.
pub open spec fn metadata_text(
    escaped_name: Seq<char>,
    width: nat,
    height: nat,
    zoom_pct: nat,
    current_idx: nat,
    total: nat,
) -> Seq<char> {
    if total > 0 {
        escaped_name + " | "@ + decimal(width) + "x"@ + decimal(height) + " | "@ + decimal(zoom_pct)
            + "% | "@ + decimal(current_idx + 1) + "/"@ + decimal(total)
    } else {
        "No image open"@
    }
}

/// The metadata pill's text for the current image.
pub fn metadata_label_text(
    escaped_name: &str,
    width: u32,
    height: u32,
    zoom_pct: u32,
    current_idx: usize,
    total: usize,
) -> (r: String)
    requires
        total > 0 ==> current_idx < usize::MAX,
    ensures
        r@ == metadata_text(escaped_name@, width as nat, height as nat, zoom_pct as nat, current_idx as nat, total as nat),
{
    if total == 0 {
        return "No image open".to_string();
    }
    let mut s = String::new();
    push_str(&mut s, escaped_name);
    push_str(&mut s, " | ");
    push_decimal(&mut s, width as u64);
    push_str(&mut s, "x");
    push_decimal(&mut s, height as u64);
    push_str(&mut s, " | ");
    push_decimal(&mut s, zoom_pct as u64);
    push_str(&mut s, "% | ");
    push_decimal(&mut s, (current_idx + 1) as u64);
    push_str(&mut s, "/");
    push_decimal(&mut s, total as u64);
    assert(s@ =~= metadata_text(escaped_name@, width as nat, height as nat, zoom_pct as nat, current_idx as nat, total as nat));
    s
}

/// The metadata pill shows its four parts as given: it starts with the
/// name and the size "W" "x" "H", shows the zoom percentage (any value, over
/// 100 too) between " | " and "% | ", and ends with the position counted
/// from one, "/", and the number of images; with no images it reads
/// "No image open".
pub proof fn lemma_pill_parts(
    escaped_name: Seq<char>,
    width: nat,
    height: nat,
    zoom_pct: nat,
    current_idx: nat,
    total: nat,
)
    ensures
        total == 0 ==> metadata_text(escaped_name, width, height, zoom_pct, current_idx, total) == "No image open"@,
        total > 0 ==> ({
            let t = metadata_text(escaped_name, width, height, zoom_pct, current_idx, total);
            let head = escaped_name + " | "@ + decimal(width) + "x"@ + decimal(height);
            let zoom = " | "@ + decimal(zoom_pct) + "% | "@;
            let tail = decimal(current_idx + 1) + "/"@ + decimal(total);
            &&& head.is_prefix_of(t)
            &&& t.subrange(head.len() as int, (head.len() + zoom.len()) as int) == zoom
            &&& t.len() == head.len() + zoom.len() + tail.len()
            &&& t.subrange(t.len() - tail.len(), t.len() as int) == tail
        }),
{
    if total > 0 {
        let t = metadata_text(escaped_name, width, height, zoom_pct, current_idx, total);
        let head = escaped_name + " | "@ + decimal(width) + "x"@ + decimal(height);
        let zoom = " | "@ + decimal(zoom_pct) + "% | "@;
        let tail = decimal(current_idx + 1) + "/"@ + decimal(total);
        assert(t =~= head + zoom + tail);
        assert(t.subrange(0, head.len() as int) =~= head);
        assert(t.subrange(head.len() as int, (head.len() + zoom.len()) as int) =~= zoom);
        assert(t.subrange(t.len() - tail.len(), t.len() as int) =~= tail);
    }
}

/// ASCII uppercase of a character sequence (std's `to_ascii_uppercase`).
pub open spec fn ascii_uppercase(s: Seq<char>) -> Seq<char> {
    s.map_values(|c: char| if 97 <= (c as u32) <= 122 { ((c as u32) - 32) as char } else { c })
}

fn ascii_uppercase_string(s: &str) -> (r: String)
    ensures
        r@ == ascii_uppercase(s@),
{
    let cs = chars_of(s);
    let n = cs.len();
    let mut out: Vec<char> = Vec::new();
    let mut i: usize = 0;
    while i < n
        invariant
            n == cs@.len(),
            i <= n,
            out@ == ascii_uppercase(cs@.take(i as int)),
        decreases n - i,
    {
        let c = cs[i];
        let u = c as u32;
        let up = if 97 <= u && u <= 122 {
            ((u - 32) as u8) as char
        } else {
            c
        };
        out.push(up);
        assert(ascii_uppercase(cs@.take(i + 1)) =~= ascii_uppercase(cs@.take(i as int)).push(up));
        i = i + 1;
    }
    assert(cs@.take(n as int) =~= cs@);
    string_from_chars(out.as_slice())
}

/// One labelled row of the image details popover.
pub open spec fn row(key: Seq<char>, value: Seq<char>) -> Seq<(Seq<char>, Seq<char>)> {
    seq![(key, value)]
}

/// A row for a present value, none for an absent one.
pub open spec fn row_if(key: Seq<char>, value: Option<Seq<char>>) -> Seq<(Seq<char>, Seq<char>)> {
    match value {
        Some(v) => seq![(key, v)],
        None => Seq::empty(),
    }
}

/// The first present value.
pub open spec fn first_present(a: Option<Seq<char>>, b: Option<Seq<char>>) -> Option<Seq<char>> {
    match a {
        Some(v) => Some(v),
        None => b,
    }
}

/// The rows of the image details popover: file name ("Unknown" when it has
/// none), dimensions "W × H px", file size, the extension in uppercase as the
/// format, and the camera details that the EXIF data holds (the camera is
/// the make, or the model when there is no make).
pub open spec fn detail_rows_spec(
    name: Option<Seq<char>>,
    width: nat,
    height: nat,
    size: Seq<char>,
    ext: Option<Seq<char>>,
    exif: Option<ExifInfo>,
) -> Seq<(Seq<char>, Seq<char>)> {
    let base = row("File Name"@, match name { Some(n) => n, None => "Unknown"@ })
        + row("Dimensions"@, decimal(width) + " × "@ + decimal(height) + " px"@)
        + row("File Size"@, size)
        + row_if("Format"@, match ext { Some(e) => Some(ascii_uppercase(e)), None => None });
    match exif {
        Some(x) => base
            + row_if("Camera"@, first_present(opt_text(x.make), opt_text(x.model)))
            + row_if("Lens"@, opt_text(x.lens))
            + row_if("Focal Length"@, opt_text(x.focal_length))
            + row_if("Aperture"@, opt_text(x.aperture))
            + row_if("Shutter"@, opt_text(x.exposure_time))
            + row_if("ISO"@, opt_text(x.iso))
            + row_if("Captured"@, opt_text(x.datetime)),
        None => base,
    }
}

/// Where each label stands in the image details popover, top first.
pub open spec fn detail_label_rank(key: Seq<char>) -> int {
    if key == "File Name"@ {
        0
    } else if key == "Dimensions"@ {
        1
    } else if key == "File Size"@ {
        2
    } else if key == "Format"@ {
        3
    } else if key == "Camera"@ {
        4
    } else if key == "Lens"@ {
        5
    } else if key == "Focal Length"@ {
        6
    } else if key == "Aperture"@ {
        7
    } else if key == "Shutter"@ {
        8
    } else if key == "ISO"@ {
        9
    } else if key == "Captured"@ {
        10
    } else {
        11
    }
}

/// Rows whose labels stand in strictly increasing rank, all below `bound`.
pub open spec fn ranked_below(rows: Seq<(Seq<char>, Seq<char>)>, bound: int) -> bool {
    &&& forall|i: int, j: int| 0 <= i < j < rows.len() ==> detail_label_rank(#[trigger] rows[i].0) < detail_label_rank(
        #[trigger] rows[j].0,
    )
    &&& forall|i: int| 0 <= i < rows.len() ==> detail_label_rank(#[trigger] rows[i].0) < bound
}

/// 1 for a present value, 0 for an absent one.
pub open spec fn present(v: Option<Seq<char>>) -> nat {
    if v is Some { 1 } else { 0 }
}

/// Appending a row for a present value keeps the rows in label order when
/// the label ranks above all earlier ones, keeps the earlier rows, and holds
/// the new row.
proof fn lemma_append_row_if(rows: Seq<(Seq<char>, Seq<char>)>, key: Seq<char>, value: Option<Seq<char>>)
    requires
        ranked_below(rows, detail_label_rank(key)),
    ensures
        ranked_below(rows + row_if(key, value), detail_label_rank(key) + 1),
        (rows + row_if(key, value)).len() == rows.len() + present(value),
        forall|i: int| 0 <= i < rows.len() ==> #[trigger] (rows + row_if(key, value))[i] == rows[i],
        value matches Some(v) ==> (rows + row_if(key, value)).contains((key, v)),
{
    let t = rows + row_if(key, value);
    assert forall|i: int| 0 <= i < rows.len() implies #[trigger] t[i] == rows[i] by {}
    match value {
        Some(v) => {
            assert(t[rows.len() as int] == (key, v));
            assert forall|i: int, j: int| 0 <= i < j < t.len() implies detail_label_rank(#[trigger] t[i].0)
                < detail_label_rank(#[trigger] t[j].0) by {
                assert(t[i] == rows[i]);
                if j < rows.len() {
                    assert(t[j] == rows[j]);
                }
            }
            assert forall|i: int| 0 <= i < t.len() implies detail_label_rank(#[trigger] t[i].0) < detail_label_rank(
                key,
            ) + 1 by {
                if i < rows.len() {
                    assert(t[i] == rows[i]);
                }
            }
        },
        None => {
            assert(t =~= rows);
        },
    }
}

/// The ranks of the popover's labels.
proof fn lemma_label_ranks()
    ensures
        detail_label_rank("File Name"@) == 0,
        detail_label_rank("Dimensions"@) == 1,
        detail_label_rank("File Size"@) == 2,
        detail_label_rank("Format"@) == 3,
        detail_label_rank("Camera"@) == 4,
        detail_label_rank("Lens"@) == 5,
        detail_label_rank("Focal Length"@) == 6,
        detail_label_rank("Aperture"@) == 7,
        detail_label_rank("Shutter"@) == 8,
        detail_label_rank("ISO"@) == 9,
        detail_label_rank("Captured"@) == 10,
{
    reveal_strlit("File Name");
    reveal_strlit("Dimensions");
    reveal_strlit("File Size");
    reveal_strlit("Format");
    reveal_strlit("Camera");
    reveal_strlit("Lens");
    reveal_strlit("Focal Length");
    reveal_strlit("Aperture");
    reveal_strlit("Shutter");
    reveal_strlit("ISO");
    reveal_strlit("Captured");
    assert(detail_label_rank("File Name"@) == 0);
    assert("File Name"@.len() == 9);
    assert("Dimensions"@.len() == 10);
    assert("File Size"@.len() == 9);
    assert("Format"@.len() == 6);
    assert("Camera"@.len() == 6);
    assert("Lens"@.len() == 4);
    assert("Focal Length"@.len() == 12);
    assert("Aperture"@.len() == 8);
    assert("Shutter"@.len() == 7);
    assert("ISO"@.len() == 3);
    assert("Captured"@.len() == 8);
    assert("File Size"@[5] != "File Name"@[5]);
    assert("Format"@[0] != "Camera"@[0]);
    assert("Aperture"@[0] != "Captured"@[0]);
    assert(detail_label_rank("Dimensions"@) == 1);
    assert(detail_label_rank("File Size"@) == 2);
    assert(detail_label_rank("Format"@) == 3);
    assert(detail_label_rank("Camera"@) == 4);
    assert(detail_label_rank("Lens"@) == 5);
    assert(detail_label_rank("Focal Length"@) == 6);
    assert(detail_label_rank("Aperture"@) == 7);
    assert(detail_label_rank("Shutter"@) == 8);
    assert(detail_label_rank("ISO"@) == 9);
    assert(detail_label_rank("Captured"@) == 10);
}

/// The rows every popover has: file name, dimensions, file size, and the
/// format when there is an extension.
#[verifier::rlimit(40)]
proof fn lemma_base_rows(
    name: Option<Seq<char>>,
    width: nat,
    height: nat,
    size: Seq<char>,
    ext: Option<Seq<char>>,
)
    ensures
        ({
            let n0 = match name { Some(n) => n, None => "Unknown"@ };
            let dims = decimal(width) + " × "@ + decimal(height) + " px"@;
            let fmt = match ext { Some(e) => Some(ascii_uppercase(e)), None => None };
            let b = row("File Name"@, n0) + row("Dimensions"@, dims) + row("File Size"@, size) + row_if(
                "Format"@,
                fmt,
            );
            &&& ranked_below(b, 4)
            &&& b.len() == 3 + present(fmt)
            &&& b[0] == ("File Name"@, n0)
            &&& b[1] == ("Dimensions"@, dims)
            &&& b[2] == ("File Size"@, size)
            &&& fmt matches Some(f) ==> b.contains(("Format"@, f))
        }),
{
    lemma_label_ranks();
    let fmt = match ext { Some(e) => Some(ascii_uppercase(e)), None => None };
    let n0 = match name { Some(n) => n, None => "Unknown"@ };
    let dims = decimal(width) + " × "@ + decimal(height) + " px"@;
    let e = Seq::<(Seq<char>, Seq<char>)>::empty();
    lemma_append_row_if(e, "File Name"@, Some(n0));
    assert(e + row_if("File Name"@, Some(n0)) =~= row("File Name"@, n0));
    let s0 = row("File Name"@, n0);
    lemma_append_row_if(s0, "Dimensions"@, Some(dims));
    assert(row_if("Dimensions"@, Some(dims)) == row("Dimensions"@, dims));
    let s1 = s0 + row("Dimensions"@, dims);
    lemma_append_row_if(s1, "File Size"@, Some(size));
    assert(row_if("File Size"@, Some(size)) == row("File Size"@, size));
    let s2 = s1 + row("File Size"@, size);
    lemma_append_row_if(s2, "Format"@, fmt);
    let s3 = s2 + row_if("Format"@, fmt);
    assert(s3[0] == s2[0] && s3[1] == s2[1] && s3[2] == s2[2]);
    assert(s2[0] == s1[0] && s2[1] == s1[1] && s1[0] == s0[0]);
}

/// The EXIF rows after the base rows: one per present field, in label
/// order, the base rows kept in front.
#[verifier::rlimit(60)]
proof fn lemma_exif_rows(base: Seq<(Seq<char>, Seq<char>)>, x: ExifInfo)
    requires
        ranked_below(base, 4),
    ensures
        ({
            let camera = first_present(opt_text(x.make), opt_text(x.model));
            let r = base + row_if("Camera"@, camera) + row_if("Lens"@, opt_text(x.lens)) + row_if(
                "Focal Length"@,
                opt_text(x.focal_length),
            ) + row_if("Aperture"@, opt_text(x.aperture)) + row_if("Shutter"@, opt_text(x.exposure_time))
                + row_if("ISO"@, opt_text(x.iso)) + row_if("Captured"@, opt_text(x.datetime));
            &&& ranked_below(r, 11)
            &&& r.len() == base.len() + present(camera) + present(opt_text(x.lens)) + present(
                opt_text(x.focal_length),
            ) + present(opt_text(x.aperture)) + present(opt_text(x.exposure_time)) + present(opt_text(x.iso))
                + present(opt_text(x.datetime))
            &&& forall|i: int| 0 <= i < base.len() ==> #[trigger] r[i] == base[i]
            &&& camera matches Some(c) ==> r.contains(("Camera"@, c))
            &&& opt_text(x.lens) matches Some(l) ==> r.contains(("Lens"@, l))
            &&& opt_text(x.focal_length) matches Some(v) ==> r.contains(("Focal Length"@, v))
            &&& opt_text(x.aperture) matches Some(v) ==> r.contains(("Aperture"@, v))
            &&& opt_text(x.exposure_time) matches Some(v) ==> r.contains(("Shutter"@, v))
            &&& opt_text(x.iso) matches Some(v) ==> r.contains(("ISO"@, v))
            &&& opt_text(x.datetime) matches Some(v) ==> r.contains(("Captured"@, v))
        }),
{
    lemma_label_ranks();
    let camera = first_present(opt_text(x.make), opt_text(x.model));
    lemma_append_row_if(base, "Camera"@, camera);
    let s4 = base + row_if("Camera"@, camera);
    lemma_append_row_if(s4, "Lens"@, opt_text(x.lens));
    let s5 = s4 + row_if("Lens"@, opt_text(x.lens));
    lemma_append_row_if(s5, "Focal Length"@, opt_text(x.focal_length));
    let s6 = s5 + row_if("Focal Length"@, opt_text(x.focal_length));
    lemma_append_row_if(s6, "Aperture"@, opt_text(x.aperture));
    let s7 = s6 + row_if("Aperture"@, opt_text(x.aperture));
    lemma_append_row_if(s7, "Shutter"@, opt_text(x.exposure_time));
    let s8 = s7 + row_if("Shutter"@, opt_text(x.exposure_time));
    lemma_append_row_if(s8, "ISO"@, opt_text(x.iso));
    let s9 = s8 + row_if("ISO"@, opt_text(x.iso));
    lemma_append_row_if(s9, "Captured"@, opt_text(x.datetime));
    let s10 = s9 + row_if("Captured"@, opt_text(x.datetime));
    lemma_rows_kept(s4, s10);
    lemma_rows_kept(s5, s10);
    lemma_rows_kept(s6, s10);
    lemma_rows_kept(s7, s10);
    lemma_rows_kept(s8, s10);
    lemma_rows_kept(s9, s10);
    assert forall|i: int| 0 <= i < base.len() implies #[trigger] s10[i] == base[i] by {
        assert(s10[i] == s9[i]);
        assert(s9[i] == s8[i]);
        assert(s8[i] == s7[i]);
        assert(s7[i] == s6[i]);
        assert(s6[i] == s5[i]);
        assert(s5[i] == s4[i]);
    }
}

/// The image details popover lists, in this order and with nothing else:
/// the file name ("Unknown" when there is none), the dimensions
/// "W × H px", the file size, the format (the extension in uppercase) when
/// there is an extension, and, when there is EXIF data, one row for each
/// field it holds: Camera (the make, else the model), Lens, Focal Length,
/// Aperture, Shutter, ISO and Captured. So every present field has its row,
/// and the rows appear in that fixed order.
pub proof fn lemma_detail_rows_listed(
    name: Option<Seq<char>>,
    width: nat,
    height: nat,
    size: Seq<char>,
    ext: Option<Seq<char>>,
    exif: Option<ExifInfo>,
)
    ensures
        ({
            let r = detail_rows_spec(name, width, height, size, ext, exif);
            let fmt = match ext { Some(e) => Some(ascii_uppercase(e)), None => None };
            &&& r[0] == ("File Name"@, match name { Some(n) => n, None => "Unknown"@ })
            &&& r[1] == ("Dimensions"@, decimal(width) + " × "@ + decimal(height) + " px"@)
            &&& r[2] == ("File Size"@, size)
            &&& fmt matches Some(f) ==> r.contains(("Format"@, f))
            &&& forall|i: int, j: int| 0 <= i < j < r.len() ==> detail_label_rank(#[trigger] r[i].0)
                < detail_label_rank(#[trigger] r[j].0)
            &&& exif is None ==> r.len() == 3 + present(fmt)
            &&& exif matches Some(x) ==> {
                let camera = if x.make is Some { opt_text(x.make) } else { opt_text(x.model) };
                &&& r.len() == 3 + present(fmt) + present(camera) + present(opt_text(x.lens)) + present(
                    opt_text(x.focal_length),
                ) + present(opt_text(x.aperture)) + present(opt_text(x.exposure_time)) + present(
                    opt_text(x.iso),
                ) + present(opt_text(x.datetime))
                &&& camera matches Some(c) ==> r.contains(("Camera"@, c))
                &&& opt_text(x.lens) matches Some(l) ==> r.contains(("Lens"@, l))
                &&& opt_text(x.focal_length) matches Some(v) ==> r.contains(("Focal Length"@, v))
                &&& opt_text(x.aperture) matches Some(v) ==> r.contains(("Aperture"@, v))
                &&& opt_text(x.exposure_time) matches Some(v) ==> r.contains(("Shutter"@, v))
                &&& opt_text(x.iso) matches Some(v) ==> r.contains(("ISO"@, v))
                &&& opt_text(x.datetime) matches Some(v) ==> r.contains(("Captured"@, v))
            }
        }),
{
    lemma_base_rows(name, width, height, size, ext);
    let fmt = match ext { Some(e) => Some(ascii_uppercase(e)), None => None };
    let n0 = match name { Some(n) => n, None => "Unknown"@ };
    let dims = decimal(width) + " × "@ + decimal(height) + " px"@;
    let b = row("File Name"@, n0) + row("Dimensions"@, dims) + row("File Size"@, size) + row_if("Format"@, fmt);
    match exif {
        Some(x) => {
            lemma_exif_rows(b, x);
            let camera = first_present(opt_text(x.make), opt_text(x.model));
            assert(camera == (if x.make is Some { opt_text(x.make) } else { opt_text(x.model) }));
            let r = detail_rows_spec(name, width, height, size, ext, exif);
            assert(r == b + row_if("Camera"@, camera) + row_if("Lens"@, opt_text(x.lens)) + row_if(
                "Focal Length"@,
                opt_text(x.focal_length),
            ) + row_if("Aperture"@, opt_text(x.aperture)) + row_if("Shutter"@, opt_text(x.exposure_time))
                + row_if("ISO"@, opt_text(x.iso)) + row_if("Captured"@, opt_text(x.datetime)));
            assert(r[0] == b[0] && r[1] == b[1] && r[2] == b[2]);
            lemma_rows_kept(b, r);
        },
        None => {},
    }
}

/// What a prefix of a row list contains, the whole list contains.
proof fn lemma_rows_kept(a: Seq<(Seq<char>, Seq<char>)>, b: Seq<(Seq<char>, Seq<char>)>)
    requires
        a.len() <= b.len(),
        forall|i: int| 0 <= i < a.len() ==> #[trigger] b[i] == a[i],
    ensures
        forall|p: (Seq<char>, Seq<char>)| a.contains(p) ==> #[trigger] b.contains(p),
{
    assert forall|p: (Seq<char>, Seq<char>)| a.contains(p) implies #[trigger] b.contains(p) by {
        let i = a.index_of(p);
        assert(b[i] == a[i]);
    }
}

/// The views of a list of labelled rows.
pub open spec fn rows_view(v: Seq<(String, String)>) -> Seq<(Seq<char>, Seq<char>)> {
    v.map_values(|p: (String, String)| (p.0@, p.1@))
}

fn push_row(rows: &mut Vec<(String, String)>, key: &str, value: String)
    ensures
        rows_view(final(rows)@) == rows_view(old(rows)@) + row(key@, value@),
{
    rows.push((key.to_string(), value));
    assert(rows_view(rows@) =~= rows_view(old(rows)@) + row(key@, value@));
}

fn push_row_if(rows: &mut Vec<(String, String)>, key: &str, value: Option<String>)
    ensures
        rows_view(final(rows)@) == rows_view(old(rows)@) + row_if(key@, opt_text(value)),
{
    match value {
        Some(v) => push_row(rows, key, v),
        None => {
            assert(rows_view(rows@) =~= rows_view(old(rows)@) + row_if(key@, opt_text(value)));
        },
    }
}

/// The labelled rows of the image details popover (see [`detail_rows_spec`]).
pub fn image_detail_rows(
    name: Option<&str>,
    width: u32,
    height: u32,
    size: &str,
    ext: Option<&str>,
    exif: Option<ExifInfo>,
) -> (rows: Vec<(String, String)>)
    ensures
        rows_view(rows@) == detail_rows_spec(
            match name { Some(n) => Some(n@), None => None },
            width as nat,
            height as nat,
            size@,
            match ext { Some(e) => Some(e@), None => None },
            exif,
        ),
{
    let mut rows: Vec<(String, String)> = Vec::new();
    let file_name = match name {
        Some(n) => n.to_string(),
        None => "Unknown".to_string(),
    };
    push_row(&mut rows, "File Name", file_name);
    let mut dims = String::new();
    push_decimal(&mut dims, width as u64);
    push_str(&mut dims, " × ");
    push_decimal(&mut dims, height as u64);
    push_str(&mut dims, " px");
    push_row(&mut rows, "Dimensions", dims);
    push_row(&mut rows, "File Size", size.to_string());
    let format = match ext {
        Some(e) => Some(ascii_uppercase_string(e)),
        None => None,
    };
    push_row_if(&mut rows, "Format", format);
    let ghost base = rows_view(rows@);
    match exif {
        Some(x) => {
            let camera = match x.make {
                Some(m) => Some(m),
                None => x.model,
            };
            push_row_if(&mut rows, "Camera", camera);
            push_row_if(&mut rows, "Lens", x.lens);
            push_row_if(&mut rows, "Focal Length", x.focal_length);
            push_row_if(&mut rows, "Aperture", x.aperture);
            push_row_if(&mut rows, "Shutter", x.exposure_time);
            push_row_if(&mut rows, "ISO", x.iso);
            push_row_if(&mut rows, "Captured", x.datetime);
        },
        None => {},
    }
    rows
}

/// ASCII uppercasing keeps the length, turns each of `a`..`z` into the
/// matching `A`..`Z` and leaves every other character as it is.
pub proof fn lemma_ascii_uppercase_letters(s: Seq<char>)
    ensures
        ascii_uppercase(s).len() == s.len(),
        forall|i: int| 0 <= i < s.len() && 97 <= (s[i] as u32) <= 122 ==> (#[trigger] ascii_uppercase(s)[i]) as u32 + 32 == s[i] as u32,
        forall|i: int| 0 <= i < s.len() && !(97 <= (s[i] as u32) <= 122) ==> #[trigger] ascii_uppercase(s)[i] == s[i],
{
}

} // verus!
