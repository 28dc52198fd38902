//! What the name of a file says of it, and how long its media is.
use crate::copying::optional;
use crate::paths::plain_path;
use crate::text::{all_ascii, ends_in, ends_with, lowered, to_lowercase, unicode_lowercase};
use crate::time::Duration;
use vstd::prelude::*;
use vstd::utf8::encode_utf8;

verus! {

/// Whether a name in lower case ends as that of media does.
pub open spec fn media_ending(lower: Seq<char>) -> bool {
    ends_in(lower, ".mp4"@)
        || ends_in(lower, ".mov"@)
        || ends_in(lower, ".mkv"@)
        || ends_in(lower, ".webm"@)
        || ends_in(lower, ".avi"@)
        || ends_in(lower, ".flv"@)
        || ends_in(lower, ".m4v"@)
        || ends_in(lower, ".mp3"@)
        || ends_in(lower, ".wav"@)
        || ends_in(lower, ".m4a"@)
        || ends_in(lower, ".aac"@)
        || ends_in(lower, ".flac"@)
        || ends_in(lower, ".ogg"@)
        || ends_in(lower, ".opus"@)
        || ends_in(lower, ".jpg"@)
        || ends_in(lower, ".jpeg"@)
        || ends_in(lower, ".png"@)
        || ends_in(lower, ".webp"@)
        || ends_in(lower, ".bmp"@)
        || ends_in(lower, ".gif"@)
        || ends_in(lower, ".tif"@)
        || ends_in(lower, ".tiff"@)
}

/// Whether a file of that name can be used.
pub open spec fn media_name(path: Seq<char>) -> bool {
    media_ending(unicode_lowercase(path))
}

/// Whether a name in lower case ends as that of media does.
pub fn has_media_ending(lower: &str) -> (yes: bool)
    ensures
        yes == media_ending(lower@),
{
    ends_with(lower, ".mp4")
        || ends_with(lower, ".mov")
        || ends_with(lower, ".mkv")
        || ends_with(lower, ".webm")
        || ends_with(lower, ".avi")
        || ends_with(lower, ".flv")
        || ends_with(lower, ".m4v")
        || ends_with(lower, ".mp3")
        || ends_with(lower, ".wav")
        || ends_with(lower, ".m4a")
        || ends_with(lower, ".aac")
        || ends_with(lower, ".flac")
        || ends_with(lower, ".ogg")
        || ends_with(lower, ".opus")
        || ends_with(lower, ".jpg")
        || ends_with(lower, ".jpeg")
        || ends_with(lower, ".png")
        || ends_with(lower, ".webp")
        || ends_with(lower, ".bmp")
        || ends_with(lower, ".gif")
        || ends_with(lower, ".tif")
        || ends_with(lower, ".tiff")
}

/// Whether a file of that name can be used.
pub fn is_supported_media_path(path: &str) -> (yes: bool)
    ensures
        yes == media_name(path@),
        all_ascii(path@) ==> yes == media_ending(lowered(path@)),
{
    let lower = to_lowercase(path);
    has_media_ending(lower.as_str())
}

/// Whether a name in lower case ends as that of a still picture in an export does.
pub open spec fn picture_ending(lower: Seq<char>) -> bool {
    ends_in(lower, ".jpg"@)
        || ends_in(lower, ".jpeg"@)
        || ends_in(lower, ".png"@)
        || ends_in(lower, ".webp"@)
        || ends_in(lower, ".bmp"@)
}

/// Whether a file of that name is a still picture in an export.
pub open spec fn picture_name(path: Seq<char>) -> bool {
    picture_ending(unicode_lowercase(path))
}

/// Whether a name in lower case ends as that of a still picture in an export does.
pub fn has_picture_ending(lower: &str) -> (yes: bool)
    ensures
        yes == picture_ending(lower@),
{
    ends_with(lower, ".jpg")
        || ends_with(lower, ".jpeg")
        || ends_with(lower, ".png")
        || ends_with(lower, ".webp")
        || ends_with(lower, ".bmp")
}

/// Whether a file of that name is a still picture in an export.
pub fn is_image_ext(path: &str) -> (yes: bool)
    ensures
        yes == picture_name(path@),
        all_ascii(path@) ==> yes == picture_ending(lowered(path@)),
{
    let lower = to_lowercase(path);
    has_picture_ending(lower.as_str())
}

/// Whether a name in lower case ends as that of a still picture in the media pool does.
pub open spec fn still_ending(lower: Seq<char>) -> bool {
    ends_in(lower, ".jpg"@)
        || ends_in(lower, ".jpeg"@)
        || ends_in(lower, ".png"@)
        || ends_in(lower, ".webp"@)
        || ends_in(lower, ".bmp"@)
        || ends_in(lower, ".gif"@)
}

/// Whether a file of that name is a still picture in the media pool.
pub open spec fn still_name(path: Seq<char>) -> bool {
    still_ending(unicode_lowercase(path))
}

/// Whether a name in lower case ends as that of a still picture in the media pool does.
pub fn has_still_ending(lower: &str) -> (yes: bool)
    ensures
        yes == still_ending(lower@),
{
    ends_with(lower, ".jpg")
        || ends_with(lower, ".jpeg")
        || ends_with(lower, ".png")
        || ends_with(lower, ".webp")
        || ends_with(lower, ".bmp")
        || ends_with(lower, ".gif")
}

/// Whether a file of that name is a still picture in the media pool.
pub fn is_image_media_path(path: &str) -> (yes: bool)
    ensures
        yes == still_name(path@),
        all_ascii(path@) ==> yes == still_ending(lowered(path@)),
{
    let lower = to_lowercase(path);
    has_still_ending(lower.as_str())
}

/// Whatever is a still picture can be used, and an export knows no other still pictures
/// than the media pool.
pub proof fn pictures_are_media(path: Seq<char>)
    ensures
        picture_name(path) ==> still_name(path),
        still_name(path) ==> media_name(path),
{
}

/// How long a still picture is shown, and how long media is taken to be of which
/// nothing is known.
pub const USUAL_LENGTH: u128 = 5_000_000_000;

/// What is known of the length of media, or who is to be asked.
#[derive(Debug)]
pub enum MediaLength {
    Known(Duration),
    /// Ask the program that reads files.
    AskProbe,
    /// Ask a player for what is at the address.
    AskPlayer(String),
}

/// What is known, or who is to be asked.
pub ghost enum MediaLengthView {
    Known(int),
    AskProbe,
    AskPlayer(Seq<char>),
}

impl View for MediaLength {
    type V = MediaLengthView;

    open spec fn view(&self) -> MediaLengthView {
        match *self {
            MediaLength::Known(d) => MediaLengthView::Known(d@),
            MediaLength::AskProbe => MediaLengthView::AskProbe,
            MediaLength::AskPlayer(url) => MediaLengthView::AskPlayer(url@),
        }
    }
}

/// The length as far as the name of the file says it: nothing of what cannot be used,
/// and the usual length of a still picture.
pub fn length_by_name(path: &str) -> (length: MediaLength)
    ensures
        length@ == if !media_name(path@) {
            MediaLengthView::Known(0)
        } else if picture_name(path@) {
            MediaLengthView::Known(USUAL_LENGTH as int)
        } else {
            MediaLengthView::AskProbe
        },
{
    if !is_supported_media_path(path) {
        MediaLength::Known(Duration::zero())
    } else if is_image_ext(path) {
        MediaLength::Known(Duration { nanos: USUAL_LENGTH })
    } else {
        MediaLength::AskProbe
    }
}

/// Whether a byte stands for itself in the address of a file: none of a control character, of a
/// character past ASCII, or with a meaning of its own in an address.
pub open spec fn stands_for_itself(b: u8) -> bool {
    0x20 < b < 0x7f && b != 0x22 && b != 0x23 && b != 0x25 && b != 0x3c && b != 0x3e && b != 0x3f && b
        != 0x5c && b != 0x60 && b != 0x7b && b != 0x7d
}

/// A digit to the base of sixteen.
pub open spec fn hex_digit(n: u8) -> char {
    if n < 10 {
        (0x30 + n) as u8 as char
    } else {
        (0x41 + n - 10) as u8 as char
    }
}

/// Bytes as they are written in the address of a file: each for itself or by its number.
pub open spec fn escaped(bytes: Seq<u8>) -> Seq<char>
    decreases bytes.len(),
{
    if bytes.len() == 0 {
        seq![]
    } else {
        let b = bytes.last();
        escaped(bytes.drop_last()) + if stands_for_itself(b) {
            seq![b as char]
        } else {
            seq!['%', hex_digit((b / 16) as u8), hex_digit((b % 16) as u8)]
        }
    }
}

/// Whether a path does not lead from a root on any machine: it begins with no separator and names
/// no drive.
pub open spec fn is_relative(path: Seq<char>) -> bool {
    !path.contains(':') && (path.len() > 0 ==> path[0] != '/' && path[0] != '\\')
}

/// What the address of a file may be: one of a file. Of a path of names from the root it is the
/// path behind the scheme, with the bytes that do not stand for themselves written by their
/// number. A relative path has none.
pub open spec fn address_of(path: Seq<char>, url: Option<Seq<char>>) -> bool {
    &&& url matches Some(u) ==> "file://"@.is_prefix_of(u)
    &&& plain_path(path) && path[0] == '/' ==> (url matches Some(u) ==> u == "file://"@ + escaped(
        encode_utf8(path),
    ))
    &&& is_relative(path) ==> url is None
}

/// `Url::from_file_path`: the address of a file. It begins with the scheme of files; for a path by
/// names from the root it goes on with the path, part by part, in which bytes of characters past
/// ASCII and of those with a meaning in an address are written by their number; a relative path has
/// none. Whether a path from the root has one, and the address of a path with a backslash or a
/// colon, depends on the machine, whose paths differ, and is not said.
#[verifier::external_body]
fn file_url(path: &str) -> (url: Option<String>)
    ensures
        address_of(path@, optional(url)),
{
    match url::Url::from_file_path(path) {
        Ok(u) => Some(u.to_string()),
        Err(_) => None,
    }
}

/// The length after the program that reads files was asked: what it found, else a player
/// is asked for the file if it has an address, else the usual length.
pub fn length_after_probe(path: &str, found: Option<Duration>) -> (length: MediaLength)
    ensures
        found matches Some(d) ==> length@ == MediaLengthView::Known(d@),
        found is None ==> match length@ {
            MediaLengthView::Known(d) => d == USUAL_LENGTH && address_of(path@, None),
            MediaLengthView::AskProbe => false,
            MediaLengthView::AskPlayer(url) => address_of(path@, Some(url)),
        },
{
    match found {
        Some(d) => MediaLength::Known(d),
        None => length_by_address(file_url(path)),
    }
}

/// The length for an address, if there is one.
pub fn length_by_address(url: Option<String>) -> (length: MediaLength)
    ensures
        length@ == match optional(url) {
            Some(u) => MediaLengthView::AskPlayer(u),
            None => MediaLengthView::Known(USUAL_LENGTH as int),
        },
{
    match url {
        Some(u) => MediaLength::AskPlayer(u),
        None => MediaLength::Known(Duration { nanos: USUAL_LENGTH }),
    }
}

/// The length after a player was asked.
pub fn length_after_player(found: Option<Duration>) -> (d: Duration)
    ensures
        d@ == match found {
            Some(f) => f@,
            None => USUAL_LENGTH as int,
        },
{
    match found {
        Some(f) => f,
        None => Duration { nanos: USUAL_LENGTH },
    }
}

/// Whether a file has sound: a still picture has none, and another has if the program
/// that reads files found a stream.
pub fn sound_by_probe(path: &str, found: bool) -> (yes: bool)
    ensures
        yes == (!picture_name(path@) && found),
{
    !is_image_ext(path) && found
}

/// The program that reads files: the one that is named, else the one beside the named
/// program that writes them, else the usual one.
pub fn probe_program(probe: Option<&str>, beside_writer: Option<&str>) -> (program: String)
    ensures
        program@ == match (probe, beside_writer) {
            (Some(p), _) if crate::text::trimmed(p@).len() > 0 => p@,
            (_, Some(w)) if crate::text::trimmed(w@).len() > 0 => w@,
            _ => "ffprobe"@,
        },
{
    if let Some(p) = probe {
        if crate::text::trim(p).as_str().unicode_len() > 0 {
            return crate::text::owned(p);
        }
    }
    if let Some(w) = beside_writer {
        if crate::text::trim(w).as_str().unicode_len() > 0 {
            return crate::text::owned(w);
        }
    }
    crate::text::owned("ffprobe")
}

} // verus!
