//! What each image feed's reply holds: the photos of the rover feed, of the
//! picture-of-the-day feed and of the image catalogue.

use crate::json::Json;
use crate::photo::{gallery, lemma_gallery_push, Photo, PhotoView};
use crate::text::{after_last, chars_of, string_of, suffix_after_last};
use vstd::prelude::*;
use vstd::string::StringExecFns;

verus! {

/// The text that `serde_json` writes for the JSON string that holds `text`.
pub uninterp spec fn json_quoted(text: Seq<char>) -> Seq<char>;

/// `serde_json::Value::to_string` on a string value: the compact JSON text of
/// the string that holds `text`. The contract only names that text.
#[verifier::external_body]
fn quote(text: &str) -> (quoted: String)
    ensures
        quoted@ == json_quoted(text@),
{
    serde_json::Value::String(text.to_string()).to_string()
}

/// The string that member `key` of `value` is, if it is one.
pub fn member_text<'a>(value: &'a Json, key: &str) -> (found: Option<&'a str>)
    ensures
        match found {
            Some(s) => value.member(key@).text() == Some(s@),
            None => value.member(key@).text() is None,
        },
{
    match value.get(key) {
        Some(member) => member.as_str(),
        None => None,
    }
}

/// The cameras of the rover whose photos are taken into the pool.
pub open spec fn is_rover_camera(name: Seq<char>) -> bool {
    ||| name == "FRONT_HAZCAM_LEFT_A"@
    ||| name == "FRONT_HAZCAM_RIGHT_A"@
    ||| name == "REAR_HAZCAM_LEFT"@
    ||| name == "REAR_HAZCAM_RIGHT"@
}

/// The camera name that an entry of the rover feed gives.
pub open spec fn rover_camera(entry: Json) -> Option<Seq<char>> {
    entry.member("camera"@).member("name"@).text()
}

/// An entry of the rover feed can be read: it names its camera, and where
/// that camera is one of the listed ones it gives the image's address.
pub open spec fn rover_entry_readable(entry: Json) -> bool {
    match rover_camera(entry) {
        Some(camera) => is_rover_camera(camera) ==> entry.member("img_src"@).text() is Some,
        None => false,
    }
}

/// The photo that an entry of the rover feed adds to the pool, if any.
pub open spec fn rover_pick(entry: Json) -> Option<PhotoView> {
    match (rover_camera(entry), entry.member("img_src"@).text()) {
        (Some(camera), Some(src)) => if is_rover_camera(camera) {
            Some(PhotoView { camera, src, name: "Perseverance "@ + camera })
        } else {
            None
        },
        _ => None,
    }
}

/// The photos that the entries add, in the entries' order.
pub open spec fn rover_picks(entries: Seq<Json>) -> Seq<PhotoView> {
    entries.filter_map(|entry: Json| rover_pick(entry))
}

/// What a reply of the rover feed holds. A reply without photos (no member
/// `photos`, or `null`) holds none; one whose `photos` is no array, or with
/// an entry that cannot be read, holds nothing that can be used.
pub open spec fn rover_gallery(reply: Json) -> Option<Seq<PhotoView>> {
    let listed = reply.member("photos"@);
    if listed is Null {
        Some(Seq::empty())
    } else {
        match listed.items() {
            Some(entries) => if forall|i: int|
                0 <= i < entries.len() ==> rover_entry_readable(#[trigger] entries[i]) {
                Some(rover_picks(entries))
            } else {
                None
            },
            None => None,
        }
    }
}

/// Whether `name` is one of the rover's listed cameras.
pub fn rover_camera_listed(name: &str) -> (yes: bool)
    ensures
        yes == is_rover_camera(name@),
{
    let name = String::from_str(name);
    name == String::from_str("FRONT_HAZCAM_LEFT_A") || name == String::from_str(
        "FRONT_HAZCAM_RIGHT_A",
    ) || name == String::from_str("REAR_HAZCAM_LEFT") || name == String::from_str(
        "REAR_HAZCAM_RIGHT",
    )
}

/// One entry of the rover feed: `None` where it cannot be read, else the
/// photo it adds, if it adds one.
pub fn rover_photo(entry: &Json) -> (read: Option<Option<Photo>>)
    ensures
        read is Some == rover_entry_readable(*entry),
        read matches Some(picked) ==> match picked {
            Some(photo) => rover_pick(*entry) == Some(photo@),
            None => rover_pick(*entry) is None,
        },
{
    let camera = match entry.get("camera") {
        Some(camera) => member_text(camera, "name"),
        None => None,
    };
    match camera {
        Some(camera) => {
            if rover_camera_listed(camera) {
                match member_text(entry, "img_src") {
                    Some(src) => {
                        let name = String::from_str("Perseverance ").concat(camera);
                        Some(Some(Photo::new(String::from_str(camera), String::from_str(src), name)))
                    },
                    None => None,
                }
            } else {
                Some(None)
            }
        },
        None => None,
    }
}

/// The photos of the listed cameras in a reply of the rover feed, in the
/// reply's order; `None` where the reply cannot be read.
pub fn rover_photos(reply: &Json) -> (found: Option<Vec<Photo>>)
    ensures
        match found {
            Some(photos) => rover_gallery(*reply) == Some(gallery(photos@)),
            None => rover_gallery(*reply) is None,
        },
{
    let listed = match reply.get("photos") {
        Some(listed) => listed,
        None => {
            assert(gallery(Seq::<Photo>::empty()) =~= Seq::<PhotoView>::empty());
            return Some(Vec::new());
        },
    };
    if listed.is_null() {
        assert(gallery(Seq::<Photo>::empty()) =~= Seq::<PhotoView>::empty());
        return Some(Vec::new());
    }
    let entries = match listed.as_array() {
        Some(entries) => entries,
        None => {
            return None;
        },
    };
    let mut photos: Vec<Photo> = Vec::new();
    let mut i: usize = 0;
    assert(gallery(photos@) =~= rover_picks(entries@.take(0)));
    while i < entries.len()
        invariant
            i <= entries.len(),
            !(reply.member("photos"@) is Null),
            reply.member("photos"@).items() == Some(entries@),
            forall|j: int| 0 <= j < i ==> rover_entry_readable(#[trigger] entries@[j]),
            gallery(photos@) == rover_picks(entries@.take(i as int)),
        decreases entries.len() - i,
    {
        proof {
            entries@.lemma_filter_map_take_succ(|entry: Json| rover_pick(entry), i as int);
        }
        match rover_photo(&entries[i]) {
            Some(Some(photo)) => {
                proof {
                    lemma_gallery_push(photos@, photo);
                }
                photos.push(photo);
            },
            Some(None) => {},
            None => {
                return None;
            },
        }
        i += 1;
    }
    assert(entries@.take(entries@.len() as int) =~= entries@);
    Some(photos)
}

/// The endings of an image's address under which the picture-of-the-day feed's
/// photos are taken into the pool.
pub open spec fn is_wallpaper_extension(extension: Seq<char>) -> bool {
    ||| extension == "jpg"@
    ||| extension == "jpeg"@
    ||| extension == "png"@
}

/// The address that an entry of the picture-of-the-day feed gives: the
/// high-definition one where it has one, else the ordinary one.
pub open spec fn daily_src(entry: Json) -> Option<Seq<char>> {
    match entry.member("hdurl"@).text() {
        Some(address) => Some(address),
        None => entry.member("url"@).text(),
    }
}

/// An entry of the picture-of-the-day feed can be read: it gives an address
/// and a title.
pub open spec fn daily_entry_readable(entry: Json) -> bool {
    daily_src(entry) is Some && entry.member("title"@).text() is Some
}

/// The photo that an entry of the picture-of-the-day feed adds to the pool:
/// one for each entry whose address ends, after its last dot, in an accepted
/// extension.
pub open spec fn daily_pick(entry: Json) -> Option<PhotoView> {
    match (daily_src(entry), entry.member("title"@).text()) {
        (Some(src), Some(title)) => if is_wallpaper_extension(after_last(src, "."@)) {
            Some(PhotoView { camera: "APOD"@, src, name: title })
        } else {
            None
        },
        _ => None,
    }
}

/// The photos that the entries add, in the entries' order.
pub open spec fn daily_picks(entries: Seq<Json>) -> Seq<PhotoView> {
    entries.filter_map(|entry: Json| daily_pick(entry))
}

/// What a reply of the picture-of-the-day feed holds; `None` where the reply
/// is no array or has an entry that cannot be read.
pub open spec fn daily_gallery(reply: Json) -> Option<Seq<PhotoView>> {
    match reply.items() {
        Some(entries) => if forall|i: int|
            0 <= i < entries.len() ==> daily_entry_readable(#[trigger] entries[i]) {
            Some(daily_picks(entries))
        } else {
            None
        },
        None => None,
    }
}

/// Whether an address ends, after its last dot, in an accepted extension.
pub fn has_wallpaper_extension(src: &str) -> (yes: bool)
    ensures
        yes == is_wallpaper_extension(after_last(src@, "."@)),
{
    let extension = suffix_after_last(src, ".");
    extension == String::from_str("jpg") || extension == String::from_str("jpeg") || extension
        == String::from_str("png")
}

/// One entry of the picture-of-the-day feed: `None` where it cannot be read,
/// else the photo it adds, if it adds one.
pub fn daily_photo(entry: &Json) -> (read: Option<Option<Photo>>)
    ensures
        read is Some == daily_entry_readable(*entry),
        read matches Some(picked) ==> match picked {
            Some(photo) => daily_pick(*entry) == Some(photo@),
            None => daily_pick(*entry) is None,
        },
{
    let src = match member_text(entry, "hdurl") {
        Some(address) => Some(address),
        None => member_text(entry, "url"),
    };
    match (src, member_text(entry, "title")) {
        (Some(src), Some(title)) => {
            if has_wallpaper_extension(src) {
                Some(
                    Some(
                        Photo::new(
                            String::from_str("APOD"),
                            String::from_str(src),
                            String::from_str(title),
                        ),
                    ),
                )
            } else {
                Some(None)
            }
        },
        _ => None,
    }
}

/// The photos with an accepted extension in a reply of the
/// picture-of-the-day feed, in the reply's order; `None` where the reply
/// cannot be read.
pub fn daily_photos(reply: &Json) -> (found: Option<Vec<Photo>>)
    ensures
        match found {
            Some(photos) => daily_gallery(*reply) == Some(gallery(photos@)),
            None => daily_gallery(*reply) is None,
        },
{
    let entries = match reply.as_array() {
        Some(entries) => entries,
        None => {
            return None;
        },
    };
    let mut photos: Vec<Photo> = Vec::new();
    let mut i: usize = 0;
    assert(gallery(photos@) =~= daily_picks(entries@.take(0)));
    while i < entries.len()
        invariant
            i <= entries.len(),
            reply.items() == Some(entries@),
            forall|j: int| 0 <= j < i ==> daily_entry_readable(#[trigger] entries@[j]),
            gallery(photos@) == daily_picks(entries@.take(i as int)),
        decreases entries.len() - i,
    {
        proof {
            entries@.lemma_filter_map_take_succ(|entry: Json| daily_pick(entry), i as int);
        }
        match daily_photo(&entries[i]) {
            Some(Some(photo)) => {
                proof {
                    lemma_gallery_push(photos@, photo);
                }
                photos.push(photo);
            },
            Some(None) => {},
            None => {
                return None;
            },
        }
        i += 1;
    }
    assert(entries@.take(entries@.len() as int) =~= entries@);
    Some(photos)
}

/// The strings of a list, each by its characters.
pub open spec fn texts(list: Seq<String>) -> Seq<Seq<char>> {
    list.map_values(|text: String| text@)
}

/// The link that an entry of the image catalogue gives: the JSON text of its
/// `href`, which must be a string.
pub open spec fn catalogue_link(entry: Json) -> Option<Seq<char>> {
    match entry.member("href"@).text() {
        Some(href) => Some(json_quoted(href)),
        None => None,
    }
}

/// The links of a reply of the image catalogue, one for each of its items
/// and in their order; `None` where the reply lists no items or one of them
/// gives no link.
pub open spec fn catalogue_links(reply: Json) -> Option<Seq<Seq<char>>> {
    match reply.member("collection"@).member("items"@).items() {
        Some(entries) => if forall|i: int|
            0 <= i < entries.len() ==> catalogue_link(#[trigger] entries[i]) is Some {
            Some(entries.map_values(|entry: Json| catalogue_link(entry)->0))
        } else {
            None
        },
        None => None,
    }
}

/// The links of a reply of the image catalogue.
pub fn catalogue_hrefs(reply: &Json) -> (found: Option<Vec<String>>)
    ensures
        match found {
            Some(links) => catalogue_links(*reply) == Some(texts(links@)),
            None => catalogue_links(*reply) is None,
        },
{
    let listed = match reply.get("collection") {
        Some(collection) => collection.get("items"),
        None => None,
    };
    let entries = match listed {
        Some(listed) => match listed.as_array() {
            Some(entries) => entries,
            None => {
                return None;
            },
        },
        None => {
            return None;
        },
    };
    let mut links: Vec<String> = Vec::new();
    let mut i: usize = 0;
    while i < entries.len()
        invariant
            i <= entries.len(),
            reply.member("collection"@).member("items"@).items() == Some(entries@),
            forall|j: int| 0 <= j < i ==> catalogue_link(#[trigger] entries@[j]) is Some,
            links@.len() == i,
            forall|j: int| 0 <= j < i ==> (#[trigger] links@[j])@ == catalogue_link(entries@[j])->0,
        decreases entries.len() - i,
    {
        match member_text(&entries[i], "href") {
            Some(href) => {
                links.push(quote(href));
            },
            None => {
                return None;
            },
        }
        i += 1;
    }
    assert(texts(links@) =~= entries@.map_values(|entry: Json| catalogue_link(entry)->0));
    Some(links)
}

/// A character of the ASCII range, which takes one byte in a string.
pub open spec fn is_single_byte(c: char) -> bool {
    (c as u32) < 128
}

/// `text` without its double quotes.
pub open spec fn without_quotes(text: Seq<char>) -> Seq<char> {
    text.filter(|c: char| c != '"')
}

/// The address under which a catalogue item's manifest lies, from the item's
/// link: the link without its first character and without any double quote.
/// A link has none where it is empty or its first character takes more than
/// one byte.
pub open spec fn manifest_address(link: Seq<char>) -> Option<Seq<char>> {
    if link.len() >= 1 && is_single_byte(link[0]) {
        Some(without_quotes(link.skip(1)))
    } else {
        None
    }
}

/// Whether `c` is of the ASCII range.
pub fn single_byte(c: char) -> (yes: bool)
    ensures
        yes == is_single_byte(c),
{
    (c as u32) < 128
}

/// The address under which a catalogue item's manifest lies.
pub fn manifest_url(link: &str) -> (found: Option<String>)
    ensures
        match found {
            Some(address) => manifest_address(link@) == Some(address@),
            None => manifest_address(link@) is None,
        },
{
    let chars = chars_of(link);
    if chars.len() == 0 || !single_byte(chars[0]) {
        return None;
    }
    let mut kept: Vec<char> = Vec::new();
    let mut i: usize = 1;
    assert(chars@.subrange(1, 1) =~= Seq::<char>::empty());
    while i < chars.len()
        invariant
            1 <= i <= chars.len(),
            kept@ == without_quotes(chars@.subrange(1, i as int)),
        decreases chars.len() - i,
    {
        proof {
            chars@.subrange(1, i as int).lemma_filter_push(chars@[i as int], |c: char| c != '"');
            assert(chars@.subrange(1, i + 1) =~= chars@.subrange(1, i as int).push(chars@[i as int]));
        }
        if chars[i] != '"' {
            kept.push(chars[i]);
        }
        i += 1;
    }
    assert(chars@.subrange(1, chars@.len() as int) =~= link@.skip(1));
    Some(string_of(&kept, 0, kept.len()))
}

/// The photo that a catalogue item's manifest gives: its first entry, which
/// must be a string, as `serde_json` writes it and without the first and the
/// last character of that text. There is none where the manifest is no
/// array or an empty one, where its first entry is no string, or where the
/// text is shorter than two characters or begins or ends with a character
/// of more than one byte.
pub open spec fn manifest_photo(manifest: Json) -> Option<PhotoView> {
    match manifest.items() {
        Some(items) => if items.len() > 0 {
            match items[0].text() {
                Some(first) => {
                    let quoted = json_quoted(first);
                    if quoted.len() >= 2 && is_single_byte(quoted.first()) && is_single_byte(
                        quoted.last(),
                    ) {
                        Some(
                            PhotoView {
                                camera: "NASA"@,
                                src: quoted.subrange(1, quoted.len() - 1),
                                name: ""@,
                            },
                        )
                    } else {
                        None
                    }
                },
                None => None,
            }
        } else {
            None
        },
        None => None,
    }
}

/// The photo that a catalogue item's manifest gives.
pub fn catalogue_photo(manifest: &Json) -> (found: Option<Photo>)
    ensures
        match found {
            Some(photo) => manifest_photo(*manifest) == Some(photo@),
            None => manifest_photo(*manifest) is None,
        },
{
    let items = match manifest.as_array() {
        Some(items) => items,
        None => {
            return None;
        },
    };
    if items.len() == 0 {
        return None;
    }
    let first = match items[0].as_str() {
        Some(first) => first,
        None => {
            return None;
        },
    };
    let quoted = chars_of(quote(first).as_str());
    let length = quoted.len();
    if length < 2 || !single_byte(quoted[0]) || !single_byte(quoted[length - 1]) {
        return None;
    }
    let src = string_of(&quoted, 1, length - 1);
    Some(Photo::new(String::from_str("NASA"), src, String::from_str("")))
}

} // verus!
