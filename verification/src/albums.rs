use vstd::prelude::*;
use crate::paths::{same_path_text, same_text_path};
use crate::util::{file_name, file_name_of, join_path, join_path_text};
use crate::text::{decimal, push_decimal, push_str};

verus! {

/// The album list as stored in `albums.toml`: the folders shown on the home
/// screen, in order.
pub struct AlbumConfig {
    pub albums: Vec<String>,
}

/// Where the album list is stored: under `$XDG_CONFIG_HOME` when it is set,
/// else under `$HOME/.config`, else `albums.toml` in the working directory.
pub open spec fn config_path_text(xdg_config_home: Option<Seq<char>>, home: Option<Seq<char>>) -> Seq<char> {
    match xdg_config_home {
        Some(x) => join_path_text(x, "omaview/albums.toml"@),
        None => match home {
            Some(h) => join_path_text(h, ".config/omaview/albums.toml"@),
            None => "albums.toml"@,
        },
    }
}

/// The album list's file, given the values of `XDG_CONFIG_HOME` and `HOME`
/// (absent when unset or not Unicode).
pub fn config_path_from(xdg_config_home: Option<&str>, home: Option<&str>) -> (r: String)
    ensures
        r@ == config_path_text(
            match xdg_config_home { Some(x) => Some(x@), None => None },
            match home { Some(h) => Some(h@), None => None },
        ),
{
    match xdg_config_home {
        Some(x) => join_path(x, "omaview/albums.toml"),
        None => match home {
            Some(h) => join_path(h, ".config/omaview/albums.toml"),
            None => "albums.toml".to_string(),
        },
    }
}

/// The header of an album on the home screen.
pub struct AlbumHeading {
    /// The folder's name ("Album" when the path names none).
    pub title: String,
    /// "N photos".
    pub badge: String,
    /// Whether the album can be opened in the viewer (it holds an image);
    /// an album without one shows a notice instead of a thumbnail strip.
    pub can_open: bool,
}

/// The heading of the album at `dir` holding `image_count` images.
pub fn album_heading(dir: &str, image_count: u64) -> (h: AlbumHeading)
    ensures
        h.title@ == match file_name_of(dir@) {
            Some(name) => name,
            None => "Album"@,
        },
        h.badge@ == decimal(image_count as nat) + " photos"@,
        h.can_open == (image_count > 0),
{
    let title = match file_name(dir) {
        Some(name) => name,
        None => "Album".to_string(),
    };
    let mut badge = String::new();
    push_decimal(&mut badge, image_count);
    push_str(&mut badge, " photos");
    assert(badge@ =~= decimal(image_count as nat) + " photos"@);
    AlbumHeading { title, badge, can_open: image_count > 0 }
}

/// The albums that a stored list yields: the stored ones when there are any;
/// otherwise the default folder, and the list is to be written back.
pub fn albums_or_default(stored: Option<AlbumConfig>, default_dir: String) -> (r: (Vec<String>, bool))
    ensures
        match stored {
            Some(cfg) => if cfg.albums@.len() > 0 {
                r.0@ == cfg.albums@ && !r.1
            } else {
                r.0@ == seq![default_dir] && r.1
            },
            None => r.0@ == seq![default_dir] && r.1,
        },
{
    match stored {
        Some(cfg) => {
            if cfg.albums.len() > 0 {
                return (cfg.albums, false);
            }
        },
        None => {},
    }
    let mut v: Vec<String> = Vec::new();
    v.push(default_dir);
    (v, true)
}

/// Whether some canonical path of the list is the same path as `target`,
/// component by component.
pub open spec fn has_album(canonical: Seq<String>, target: Seq<char>) -> bool {
    exists|j: int| 0 <= j < canonical.len() && same_text_path(#[trigger] canonical[j]@, target)
}

/// Adds `new_path` to the album list unless an album with the same canonical
/// path (compared component by component) is already there; `canonical[i]`
/// is the canonical form of `albums[i]`. Says whether the list changed.
pub fn add_album_entry(
    albums: &mut Vec<String>,
    canonical: &mut Vec<String>,
    new_path: String,
    canonical_new: String,
) -> (added: bool)
    requires
        old(canonical)@.len() == old(albums)@.len(),
    ensures
        final(canonical)@.len() == final(albums)@.len(),
        added == !has_album(old(canonical)@, canonical_new@),
        added ==> final(albums)@ == old(albums)@.push(new_path)
            && final(canonical)@ == old(canonical)@.push(canonical_new),
        !added ==> final(albums)@ == old(albums)@ && final(canonical)@ == old(canonical)@,
        has_album(final(canonical)@, canonical_new@),
{
    let n = canonical.len();
    let mut i: usize = 0;
    while i < n
        invariant
            n == canonical@.len(),
            i <= n,
            canonical@ == old(canonical)@,
            albums@ == old(albums)@,
            old(canonical)@.len() == old(albums)@.len(),
            forall|j: int| 0 <= j < i ==> !same_text_path(#[trigger] canonical@[j]@, canonical_new@),
        decreases n - i,
    {
        if same_path_text(canonical[i].as_str(), canonical_new.as_str()) {
            proof {
                assert(same_text_path(canonical@[i as int]@, canonical_new@));
            }
            return false;
        }
        i = i + 1;
    }
    albums.push(new_path);
    canonical.push(canonical_new);
    proof {
        assert(canonical@[n as int]@ == canonical_new@);
        assert(same_text_path(canonical@[n as int]@, canonical_new@));
    }
    true
}

/// The albums left after removing `target`: those whose canonical path is
/// another path, component by component.
pub open spec fn albums_without(albums: Seq<String>, canonical: Seq<String>, target: Seq<char>) -> Seq<String>
    decreases albums.len(),
{
    if albums.len() == 0 {
        Seq::empty()
    } else {
        let rest = albums_without(albums.drop_last(), canonical.drop_last(), target);
        if same_text_path(canonical[albums.len() - 1]@, target) {
            rest
        } else {
            rest.push(albums.last())
        }
    }
}

/// The album list without every album whose canonical path is the same path
/// as `target`, in the same order; `canonical[i]` is the canonical form of
/// `albums[i]`.
pub fn remove_album_entries(albums: &Vec<String>, canonical: &Vec<String>, target: &String) -> (r: Vec<String>)
    requires
        canonical@.len() == albums@.len(),
    ensures
        r@ == albums_without(albums@, canonical@, target@),
{
    let n = albums.len();
    let mut out: Vec<String> = Vec::new();
    let mut i: usize = 0;
    while i < n
        invariant
            n == albums@.len(),
            n == canonical@.len(),
            i <= n,
            out@ == albums_without(albums@.take(i as int), canonical@.take(i as int), target@),
        decreases n - i,
    {
        proof {
            assert(albums@.take(i + 1).drop_last() =~= albums@.take(i as int));
            assert(canonical@.take(i + 1).drop_last() =~= canonical@.take(i as int));
        }
        if !same_path_text(canonical[i].as_str(), target.as_str()) {
            out.push(albums[i].clone());
        }
        i = i + 1;
    }
    proof {
        assert(albums@.take(n as int) =~= albums@);
        assert(canonical@.take(n as int) =~= canonical@);
    }
    out
}

/// Removing a canonical path that no album has leaves the list as it is.
pub proof fn lemma_remove_absent_keeps_all(albums: Seq<String>, canonical: Seq<String>, target: Seq<char>)
    requires
        canonical.len() == albums.len(),
        !has_album(canonical, target),
    ensures
        albums_without(albums, canonical, target) == albums,
    decreases albums.len(),
{
    if albums.len() > 0 {
        let n = albums.len() - 1;
        assert(!same_text_path(canonical[n]@, target));
        assert(!has_album(canonical.drop_last(), target)) by {
            if has_album(canonical.drop_last(), target) {
                let j = choose|j: int|
                    0 <= j < canonical.drop_last().len() && same_text_path(#[trigger] canonical.drop_last()[j]@, target);
                assert(canonical[j] == canonical.drop_last()[j]);
            }
        }
        lemma_remove_absent_keeps_all(albums.drop_last(), canonical.drop_last(), target);
        assert(albums.drop_last().push(albums.last()) =~= albums);
    }
}

/// Removing an album right after adding it restores the album list: when
/// `add_album_entry` added `path` (its canonical form `c` was new), removing
/// `c` from the grown list gives back the list from before.
pub proof fn lemma_remove_undoes_add(albums: Seq<String>, canonical: Seq<String>, path: String, c: String)
    requires
        canonical.len() == albums.len(),
        !has_album(canonical, c@),
    ensures
        albums_without(albums.push(path), canonical.push(c), c@) == albums,
{
    assert(albums.push(path).drop_last() =~= albums);
    assert(canonical.push(c).drop_last() =~= canonical);
    lemma_remove_absent_keeps_all(albums, canonical, c@);
}

} // verus!
