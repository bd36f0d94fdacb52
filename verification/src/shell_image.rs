//! Which Shell images stand for a file or a Shell item, and in which order they are
//! tried: shortcut targets, icon-only images, thumbnails and plain icons.

use vstd::prelude::*;
use crate::text::{chars_of, string_from_chars, chars_equal, opt_view, concat_str, starts_with, chars_start_with};
use crate::std_path::{std_path_extension, path_extension};
use crate::shell_identity::{is_whitespace, trim_start, trim_end};
use crate::wide::{from_wide_buffer, from_null_terminated_u16};
use crate::native_drop::views_of;

verus! {

/// Edge length in pixels of the images requested from the Shell.
pub const SHELL_IMAGE_SIZE: i32 = 96;
/// The Shell namespace in which Store (AppX) applications live.
pub const APPS_FOLDER_PARSING_NAME_PREFIX: &'static str = "shell:AppsFolder\\";
/// Parsing names of Shell namespace objects (`::{GUID}`) start with this.
pub const SHELL_NAMESPACE_PREFIX: &'static str = "::";
/// Extension of Windows shortcuts.
pub const WINDOWS_SHORTCUT_EXTENSION: &'static str = "lnk";
/// Extension of Internet shortcuts.
pub const INTERNET_SHORTCUT_EXTENSION: &'static str = "url";
/// The key of an Internet shortcut's line that names its icon.
pub const ICON_FILE_KEY: &'static str = "IconFile=";

/// An ASCII capital letter in lower case; every other character unchanged.
pub open spec fn ascii_lower(c: char) -> char {
    if 'A' <= c <= 'Z' {
        ((c as int) + 32) as char
    } else {
        c
    }
}

/// A string with its ASCII letters in lower case.
pub open spec fn ascii_lowercase(s: Seq<char>) -> Seq<char> {
    s.map_values(|c: char| ascii_lower(c))
}

/// The lower-case form of an ASCII capital letter, other characters unchanged.
fn lower_char(c: char) -> (r: char)
    ensures
        r == ascii_lower(c),
{
    if 'A' <= c && c <= 'Z' {
        (((c as u32) as u8) + 32) as char
    } else {
        c
    }
}

/// A string with its ASCII letters in lower case (`to_ascii_lowercase`).
pub fn to_ascii_lowercase(s: &str) -> (r: Vec<char>)
    ensures
        r@ == ascii_lowercase(s@),
{
    let chars = chars_of(s);
    let n = chars.len();
    let mut out: Vec<char> = Vec::new();
    let mut i: usize = 0;
    while i < n
        invariant
            n == chars@.len(),
            chars@ == s@,
            i <= n,
            out@ == ascii_lowercase(chars@.take(i as int)),
        decreases n - i,
    {
        out.push(lower_char(chars[i]));
        assert(chars@.take(i + 1) =~= chars@.take(i as int).push(chars@[i as int]));
        assert(out@ =~= ascii_lowercase(chars@.take(i + 1)));
        i = i + 1;
    }
    assert(chars@.take(n as int) =~= chars@);
    out
}

/// Equality ignoring ASCII case (`eq_ignore_ascii_case`).
pub fn eq_ignore_ascii_case(a: &str, b: &str) -> (r: bool)
    ensures
        r == (ascii_lowercase(a@) == ascii_lowercase(b@)),
{
    let la = to_ascii_lowercase(a);
    let lb = to_ascii_lowercase(b);
    chars_equal(la.as_slice(), lb.as_slice())
}

/// The path's extension equals `ext` up to ASCII case.
pub open spec fn has_extension(path: Seq<char>, ext: Seq<char>) -> bool {
    std_path_extension(path) matches Some(e) && ascii_lowercase(e) == ascii_lowercase(ext)
}

/// Whether the path's extension is `ext`, ignoring ASCII case.
fn extension_is(path: &str, ext: &str) -> (r: bool)
    ensures
        r == has_extension(path@, ext@),
{
    match path_extension(path) {
        Some(e) => eq_ignore_ascii_case(e.as_str(), ext),
        None => false,
    }
}

/// Windows shortcuts (`.lnk`) and Internet shortcuts (`.url`) get their icon from what
/// they point to.
pub fn is_shortcut_path(path: &str) -> (r: bool)
    ensures
        r == (has_extension(path@, WINDOWS_SHORTCUT_EXTENSION@) || has_extension(
            path@,
            INTERNET_SHORTCUT_EXTENSION@,
        )),
{
    extension_is(path, WINDOWS_SHORTCUT_EXTENSION) || extension_is(
        path,
        INTERNET_SHORTCUT_EXTENSION,
    )
}

/// Whether a shortcut is an Internet shortcut (`.url`).
pub fn is_internet_shortcut_path(path: &str) -> (r: bool)
    ensures
        r == has_extension(path@, INTERNET_SHORTCUT_EXTENSION@),
{
    extension_is(path, INTERNET_SHORTCUT_EXTENSION)
}

/// The extensions of photos and videos, whose thumbnail shows their content.
pub open spec fn media_extensions() -> Seq<Seq<char>> {
    seq![
        "jpg"@,
        "jpeg"@,
        "png"@,
        "bmp"@,
        "webp"@,
        "gif"@,
        "mp4"@,
        "mkv"@,
        "avi"@,
        "mov"@,
        "wmv"@,
    ]
}

/// The extensions of photos and videos.
fn media_extension_list() -> (r: Vec<&'static str>)
    ensures
        r@.len() == media_extensions().len(),
        forall|i: int| 0 <= i < r@.len() ==> #[trigger] r@[i]@ == media_extensions()[i],
{
    let r = vec!["jpg", "jpeg", "png", "bmp", "webp", "gif", "mp4", "mkv", "avi", "mov", "wmv"];
    r
}

/// A photo or video: its lower-cased extension is one of the media extensions.
pub open spec fn is_media_name(name: Seq<char>) -> bool {
    std_path_extension(name) matches Some(e) && media_extensions().contains(ascii_lowercase(e))
}

/// Whether a parsing name is a photo or video, for which the thumbnail is wanted rather
/// than the icon.
pub fn is_media_file_parsing_name(parsing_name: &str) -> (r: bool)
    ensures
        r == is_media_name(parsing_name@),
{
    let found = path_extension(parsing_name);
    let ext = match found {
        Some(e) => e,
        None => return false,
    };
    assert(std_path_extension(parsing_name@) == Some(ext@));
    let lower = to_ascii_lowercase(ext.as_str());
    let list = media_extension_list();
    let n = list.len();
    let mut i: usize = 0;
    while i < n
        invariant
            n == list@.len() == media_extensions().len(),
            forall|k: int| 0 <= k < n ==> #[trigger] list@[k]@ == media_extensions()[k],
            lower@ == ascii_lowercase(ext@),
            i <= n,
            forall|k: int| 0 <= k < i ==> media_extensions()[k] != lower@,
            std_path_extension(parsing_name@) == Some(ext@),
        decreases n - i,
    {
        let candidate = chars_of(list[i]);
        if chars_equal(candidate.as_slice(), lower.as_slice()) {
            assert(media_extensions()[i as int] == lower@);
            assert(media_extensions().contains(lower@));
            return true;
        }
        i = i + 1;
    }
    assert(!media_extensions().contains(lower@));
    false
}

/// A way to ask the Shell for the image of a parsing name.
#[derive(Clone, Copy, PartialEq, Eq, Structural, Debug)]
pub enum ShellImageSource {
    /// The shortcut's own icon location, target or AppsFolder entry.
    Shortcut,
    /// `IShellItemImageFactory` with `SIIGBF_ICONONLY | SIIGBF_SCALEUP`: the plain icon,
    /// without the white plates and frames of thumbnails.
    IconOnly,
    /// `IShellItemImageFactory` with `SIIGBF_BIGGERSIZEOK`: the thumbnail.
    Thumbnail,
    /// The large icon from `SHGetFileInfoW` for a path.
    FileIcon,
    /// The large icon from `SHGetFileInfoW` for the PIDL of a `::{GUID}` name.
    PidlIcon,
}

/// The order in which the images of a parsing name are tried: the plain icon first
/// unless it is a photo or video, then the thumbnail, then the large file icon (taken
/// through its PIDL for a Shell namespace object).
pub open spec fn image_sources(name: Seq<char>) -> Seq<ShellImageSource> {
    let last = if starts_with(name, SHELL_NAMESPACE_PREFIX@) {
        ShellImageSource::PidlIcon
    } else {
        ShellImageSource::FileIcon
    };
    if is_media_name(name) {
        seq![ShellImageSource::Thumbnail, last]
    } else {
        seq![ShellImageSource::IconOnly, ShellImageSource::Thumbnail, last]
    }
}

/// The photo and video extensions, one by one: a name whose extension is, up to ASCII
/// case, jpg, jpeg, png, bmp, webp, gif, mp4, mkv, avi, mov or wmv is a media name and
/// its thumbnail is tried first; a name with any other extension, or none, starts with
/// the plain icon.
pub proof fn lemma_media_names_start_with_thumbnail(name: Seq<char>)
    ensures
        (std_path_extension(name) matches Some(e) && {
            let l = ascii_lowercase(e);
            ||| l == "jpg"@
            ||| l == "jpeg"@
            ||| l == "png"@
            ||| l == "bmp"@
            ||| l == "webp"@
            ||| l == "gif"@
            ||| l == "mp4"@
            ||| l == "mkv"@
            ||| l == "avi"@
            ||| l == "mov"@
            ||| l == "wmv"@
        }) <==> is_media_name(name),
        is_media_name(name) ==> image_sources(name)[0] == ShellImageSource::Thumbnail,
        !is_media_name(name) ==> image_sources(name)[0] == ShellImageSource::IconOnly,
{
    let m = media_extensions();
    assert(m[0] == "jpg"@);
    assert(m[1] == "jpeg"@);
    assert(m[2] == "png"@);
    assert(m[3] == "bmp"@);
    assert(m[4] == "webp"@);
    assert(m[5] == "gif"@);
    assert(m[6] == "mp4"@);
    assert(m[7] == "mkv"@);
    assert(m[8] == "avi"@);
    assert(m[9] == "mov"@);
    assert(m[10] == "wmv"@);
    assert(m.len() == 11);
}

/// The images to try for a parsing name, in order; the first that yields an image
/// wins, and only the error of the last one is reported.
pub fn resolve_shell_image_data_url_for_parsing_name(parsing_name: &str) -> (r: Vec<
    ShellImageSource,
>)
    ensures
        r@ == image_sources(parsing_name@),
{
    let chars = chars_of(parsing_name);
    let prefix = chars_of(SHELL_NAMESPACE_PREFIX);
    let last = if chars_start_with(chars.as_slice(), prefix.as_slice()) {
        ShellImageSource::PidlIcon
    } else {
        ShellImageSource::FileIcon
    };
    let mut r: Vec<ShellImageSource> = Vec::new();
    if !is_media_file_parsing_name(parsing_name) {
        r.push(ShellImageSource::IconOnly);
    }
    r.push(ShellImageSource::Thumbnail);
    r.push(last);
    assert(r@ =~= image_sources(parsing_name@));
    r
}

/// The images to try for a file: what its shortcut points to when it is a shortcut, then
/// those of its path.
pub fn resolve_shell_image_data_url(path: &str) -> (r: Vec<ShellImageSource>)
    ensures
        (has_extension(path@, WINDOWS_SHORTCUT_EXTENSION@) || has_extension(
            path@,
            INTERNET_SHORTCUT_EXTENSION@,
        )) ==> r@ == seq![ShellImageSource::Shortcut] + image_sources(path@),
        !(has_extension(path@, WINDOWS_SHORTCUT_EXTENSION@) || has_extension(
            path@,
            INTERNET_SHORTCUT_EXTENSION@,
        )) ==> r@ == image_sources(path@),
{
    let rest = resolve_shell_image_data_url_for_parsing_name(path);
    if is_shortcut_path(path) {
        let mut r: Vec<ShellImageSource> = Vec::new();
        r.push(ShellImageSource::Shortcut);
        let n = rest.len();
        let mut i: usize = 0;
        while i < n
            invariant
                n == rest@.len(),
                i <= n,
                r@ == seq![ShellImageSource::Shortcut] + rest@.take(i as int),
            decreases n - i,
        {
            r.push(rest[i]);
            assert(rest@.take(i + 1) =~= rest@.take(i as int).push(rest@[i as int]));
            assert(r@ =~= seq![ShellImageSource::Shortcut] + rest@.take(i + 1));
            i = i + 1;
        }
        assert(rest@.take(n as int) =~= rest@);
        r
    } else {
        rest
    }
}

/// The image found by trying sources in order: the first image found, or, when none
/// was, the outcome of the last source tried (its error, if it failed).
pub open spec fn settled_image(outcomes: Seq<Result<Option<String>, String>>) -> Result<
    Option<String>,
    String,
>
    decreases outcomes.len(),
{
    if outcomes.len() <= 1 {
        outcomes[0]
    } else if outcomes[0] matches Ok(Some(_)) {
        outcomes[0]
    } else {
        settled_image(outcomes.subrange(1, outcomes.len() as int))
    }
}

/// Settles the outcomes of the sources tried, in order, into the image to show.
pub fn settle_shell_image(outcomes: Vec<Result<Option<String>, String>>) -> (r: Result<
    Option<String>,
    String,
>)
    requires
        outcomes@.len() > 0,
    ensures
        r == settled_image(outcomes@),
{
    let mut outcomes = outcomes;
    let ghost all = outcomes@;
    let n = outcomes.len();
    let mut i: usize = 0;
    assert(all.subrange(0, n as int) =~= all);
    while i + 1 < n && !is_image(&outcomes[i])
        invariant
            outcomes@.len() == n,
            n == all.len(),
            all == outcomes@,
            n > 0,
            i < n,
            settled_image(all) == settled_image(all.subrange(i as int, n as int)),
        decreases n - i,
    {
        let ghost sub = all.subrange(i as int, n as int);
        assert(sub.subrange(1, sub.len() as int) =~= all.subrange(i + 1, n as int));
        i = i + 1;
    }
    let ghost sub = all.subrange(i as int, n as int);
    assert(sub[0] == all[i as int]);
    outcomes.swap_remove(i)
}

/// Whether an outcome holds an image.
fn is_image(outcome: &Result<Option<String>, String>) -> (r: bool)
    ensures
        r == (*outcome matches Ok(Some(_))),
{
    match outcome {
        Ok(Some(_)) => true,
        _ => false,
    }
}

/// The AppsFolder parsing name of a Store application.
pub fn apps_folder_parsing_name(app_user_model_id: &str) -> (r: String)
    ensures
        r@ == APPS_FOLDER_PARSING_NAME_PREFIX@ + app_user_model_id@,
{
    concat_str(APPS_FOLDER_PARSING_NAME_PREFIX, app_user_model_id)
}

/// A path read from a shortcut into a NUL-terminated buffer, trimmed of white space;
/// nothing when that leaves it empty.
pub fn shortcut_path_candidate(buffer: &[u16]) -> (r: Option<String>)
    ensures
        trim_end(trim_start(from_wide_buffer(buffer@))).len() == 0 ==> r is None,
        trim_end(trim_start(from_wide_buffer(buffer@))).len() > 0 ==> r is Some && r->0@
            == trim_end(trim_start(from_wide_buffer(buffer@))),
{
    let text = from_null_terminated_u16(buffer);
    let chars = chars_of(text.as_str());
    assert(chars@.subrange(0, chars@.len() as int) =~= chars@);
    let (start, end) = trim_range(chars.as_slice(), 0, chars.len());
    if start == end {
        return None;
    }
    let slice = vstd::slice::slice_subrange(chars.as_slice(), start, end);
    Some(string_from_chars(slice))
}

/// The bounds of `chars[from..to]` without its leading and trailing white space.
fn trim_range(chars: &[char], from: usize, to: usize) -> (r: (usize, usize))
    requires
        from <= to <= chars@.len(),
    ensures
        from <= r.0 <= r.1 <= to,
        chars@.subrange(r.0 as int, r.1 as int) == trim_end(
            trim_start(chars@.subrange(from as int, to as int)),
        ),
{
    let mut start = from;
    while start < to && is_whitespace(chars[start])
        invariant
            from <= start <= to <= chars@.len(),
            trim_start(chars@.subrange(from as int, to as int)) == trim_start(
                chars@.subrange(start as int, to as int),
            ),
        decreases to - start,
    {
        let ghost t = chars@.subrange(start as int, to as int);
        assert(t.subrange(1, t.len() as int) =~= chars@.subrange(start + 1, to as int));
        start = start + 1;
    }
    let ghost ts = chars@.subrange(start as int, to as int);
    assert(trim_start(chars@.subrange(from as int, to as int)) == ts);
    let mut end = to;
    while end > start && is_whitespace(chars[end - 1])
        invariant
            from <= start <= end <= to <= chars@.len(),
            ts == chars@.subrange(start as int, to as int),
            trim_end(ts) == trim_end(chars@.subrange(start as int, end as int)),
        decreases end,
    {
        assert(chars@.subrange(start as int, end as int).drop_last() =~= chars@.subrange(
            start as int,
            end - 1,
        ));
        end = end - 1;
    }
    (start, end)
}

/// The position of the first line feed, or the length when there is none.
pub open spec fn newline_index(s: Seq<char>) -> int
    decreases s.len(),
{
    if s.len() == 0 || s[0] == '\n' {
        0
    } else {
        1 + newline_index(s.subrange(1, s.len() as int))
    }
}

pub proof fn lemma_newline_index_bounds(s: Seq<char>)
    ensures
        0 <= newline_index(s) <= s.len(),
    decreases s.len(),
{
    if s.len() > 0 && s[0] != '\n' {
        lemma_newline_index_bounds(s.subrange(1, s.len() as int));
    }
}

proof fn lemma_newline_index(s: Seq<char>, k: int)
    requires
        0 <= k <= s.len(),
        forall|j: int| 0 <= j < k ==> s[j] != '\n',
        k == s.len() || s[k] == '\n',
    ensures
        newline_index(s) == k,
    decreases k,
{
    if k > 0 {
        let tail = s.subrange(1, s.len() as int);
        assert forall|j: int| 0 <= j < k - 1 implies tail[j] != '\n' by {
            assert(tail[j] == s[j + 1]);
        }
        if k < s.len() {
            assert(tail[k - 1] == s[k]);
        }
        lemma_newline_index(tail, k - 1);
    }
}

/// A line without the carriage return of a CRLF ending.
pub open spec fn strip_cr(line: Seq<char>) -> Seq<char> {
    if line.len() > 0 && line.last() == '\r' {
        line.drop_last()
    } else {
        line
    }
}

/// `s` without its leading double quotes.
pub open spec fn trim_quotes_start(s: Seq<char>) -> Seq<char>
    decreases s.len(),
{
    if s.len() > 0 && s[0] == '"' {
        trim_quotes_start(s.subrange(1, s.len() as int))
    } else {
        s
    }
}

/// `s` without its trailing double quotes.
pub open spec fn trim_quotes_end(s: Seq<char>) -> Seq<char>
    decreases s.len(),
{
    if s.len() > 0 && s.last() == '"' {
        trim_quotes_end(s.drop_last())
    } else {
        s
    }
}

/// The icon path that an Internet shortcut line names: a line that, trimmed, starts with
/// `IconFile=`, gives what follows, trimmed and without surrounding quotes, unless that
/// is empty.
pub open spec fn icon_file_value(line: Seq<char>) -> Option<Seq<char>> {
    let t = trim_end(trim_start(line));
    if starts_with(t, ICON_FILE_KEY@) {
        let v = trim_quotes_end(
            trim_quotes_start(trim_end(trim_start(t.subrange(9, t.len() as int)))),
        );
        if v.len() > 0 {
            Some(v)
        } else {
            None
        }
    } else {
        None
    }
}

/// The icon paths named by the lines of an Internet shortcut, in order. Lines end at a
/// line feed, which a carriage return may precede; the last line needs no ending.
pub open spec fn icon_file_candidates(s: Seq<char>) -> Seq<Seq<char>>
    decreases s.len(),
{
    if s.len() == 0 {
        Seq::empty()
    } else {
        let k = newline_index(s);
        proof {
            lemma_newline_index_bounds(s);
        }
        let line = if k < s.len() {
            strip_cr(s.subrange(0, k))
        } else {
            s
        };
        let rest = if k < s.len() {
            s.subrange(k + 1, s.len() as int)
        } else {
            Seq::empty()
        };
        let here = match icon_file_value(line) {
            Some(v) => seq![v],
            None => Seq::empty(),
        };
        here + icon_file_candidates(rest)
    }
}

/// The value of the `IconFile=` line in `chars[from..to]`, if it is one.
fn icon_file_value_in(chars: &[char], from: usize, to: usize) -> (r: Option<String>)
    requires
        from <= to <= chars@.len(),
    ensures
        opt_view(r) == icon_file_value(chars@.subrange(from as int, to as int)),
{
    let (a, b) = trim_range(chars, from, to);
    let key = chars_of(ICON_FILE_KEY);
    proof {
        reveal_strlit("IconFile=");
    }
    assert(key@.len() == 9);
    let ghost t = chars@.subrange(a as int, b as int);
    if b - a < 9 {
        return None;
    }
    let head = vstd::slice::slice_subrange(chars, a, b);
    if !chars_start_with(head, key.as_slice()) {
        return None;
    }
    let (c0, d0) = trim_range(chars, a + 9, b);
    assert(t.subrange(9, t.len() as int) =~= chars@.subrange(a + 9, b as int));
    let mut c = c0;
    while c < d0 && chars[c] == '"'
        invariant
            c0 <= c <= d0 <= chars@.len(),
            trim_quotes_start(chars@.subrange(c0 as int, d0 as int)) == trim_quotes_start(
                chars@.subrange(c as int, d0 as int),
            ),
        decreases d0 - c,
    {
        let ghost u = chars@.subrange(c as int, d0 as int);
        assert(u.subrange(1, u.len() as int) =~= chars@.subrange(c + 1, d0 as int));
        c = c + 1;
    }
    let ghost q = chars@.subrange(c as int, d0 as int);
    assert(trim_quotes_start(chars@.subrange(c0 as int, d0 as int)) == q);
    let mut d = d0;
    while d > c && chars[d - 1] == '"'
        invariant
            c <= d <= d0 <= chars@.len(),
            q == chars@.subrange(c as int, d0 as int),
            trim_quotes_end(q) == trim_quotes_end(chars@.subrange(c as int, d as int)),
        decreases d,
    {
        assert(chars@.subrange(c as int, d as int).drop_last() =~= chars@.subrange(
            c as int,
            d - 1,
        ));
        d = d - 1;
    }
    if c == d {
        return None;
    }
    let value = vstd::slice::slice_subrange(chars, c, d);
    Some(string_from_chars(value))
}

/// The icon paths named by the `IconFile=` lines of an Internet shortcut's text, in
/// order; the first one that exists and yields an image is used.
pub fn url_shortcut_icon_candidates(content: &str) -> (paths: Vec<String>)
    ensures
        views_of(paths@) == icon_file_candidates(content@),
{
    let chars = chars_of(content);
    let n = chars.len();
    let mut paths: Vec<String> = Vec::new();
    let mut pos: usize = 0;
    assert(chars@.subrange(0, n as int) =~= chars@);
    assert(views_of(paths@) + icon_file_candidates(chars@) =~= icon_file_candidates(chars@));
    while pos < n
        invariant
            n == chars@.len(),
            chars@ == content@,
            pos <= n,
            views_of(paths@) + icon_file_candidates(chars@.subrange(pos as int, n as int))
                == icon_file_candidates(chars@),
        decreases n - pos,
    {
        let ghost s = chars@.subrange(pos as int, n as int);
        let mut nl = pos;
        while nl < n && chars[nl] != '\n'
            invariant
                n == chars@.len(),
                pos <= nl <= n,
                forall|j: int| pos <= j < nl ==> chars@[j] != '\n',
            decreases n - nl,
        {
            nl = nl + 1;
        }
        proof {
            assert forall|j: int| 0 <= j < nl - pos implies s[j] != '\n' by {
                assert(s[j] == chars@[pos + j]);
            }
            if nl < n {
                assert(s[nl - pos] == chars@[nl as int]);
            }
            lemma_newline_index(s, nl - pos);
        }
        let mut line_end = nl;
        if nl < n && nl > pos && chars[nl - 1] == '\r' {
            line_end = nl - 1;
        }
        proof {
            if nl < n {
                assert(s.subrange(0, nl - pos) =~= chars@.subrange(pos as int, nl as int));
                if nl > pos && chars@[nl - 1] == '\r' {
                    assert(strip_cr(chars@.subrange(pos as int, nl as int)) =~= chars@.subrange(
                        pos as int,
                        line_end as int,
                    ));
                } else {
                    assert(strip_cr(chars@.subrange(pos as int, nl as int)) =~= chars@.subrange(
                        pos as int,
                        line_end as int,
                    ));
                }
                assert(s.subrange(nl - pos + 1, s.len() as int) =~= chars@.subrange(
                    nl + 1,
                    n as int,
                ));
            } else {
                assert(s =~= chars@.subrange(pos as int, line_end as int));
            }
        }
        let ghost before = views_of(paths@);
        match icon_file_value_in(chars.as_slice(), pos, line_end) {
            Some(value) => {
                paths.push(value);
                assert(views_of(paths@) =~= before.push(value@));
            },
            None => {},
        }
        let next = if nl < n {
            nl + 1
        } else {
            n
        };
        proof {
            let rest = chars@.subrange(next as int, n as int);
            if nl >= n {
                assert(rest =~= Seq::<char>::empty());
            }
            assert(views_of(paths@) + icon_file_candidates(rest) =~= before
                + icon_file_candidates(s));
        }
        pos = next;
    }
    assert(chars@.subrange(n as int, n as int) =~= Seq::<char>::empty());
    assert(views_of(paths@) + Seq::<Seq<char>>::empty() =~= views_of(paths@));
    paths
}

/// The text of `String::from_utf8_lossy` for some bytes.
pub uninterp spec fn std_utf8_lossy(bytes: Seq<u8>) -> Seq<char>;

/// Decodes bytes as UTF-8, replacing invalid sequences (std's
/// `String::from_utf8_lossy`).
#[verifier::external_body]
fn utf8_lossy(bytes: &[u8]) -> (s: String)
    ensures
        s@ == std_utf8_lossy(bytes@),
{
    String::from_utf8_lossy(bytes).into_owned()
}

/// The icon paths named by an Internet shortcut file's bytes, read as UTF-8 with
/// invalid sequences replaced.
pub fn resolve_url_shortcut_icon_candidates(bytes: &[u8]) -> (paths: Vec<String>)
    ensures
        views_of(paths@) == icon_file_candidates(std_utf8_lossy(bytes@)),
{
    let content = utf8_lossy(bytes);
    url_shortcut_icon_candidates(content.as_str())
}

} // verus!
