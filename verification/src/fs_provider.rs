//! Serving the home directory to trusted peers: which requested paths are
//! acceptable, which resolved paths stay under the shared root, how listed
//! entries are named, how much may be read at once, and which files get
//! thumbnails. The filesystem access itself is done by the application.

use vstd::prelude::*;
use crate::text::{chars_of, push_char, push_chars, string_of, decimal_string, dec};
use crate::filesystem::{lowercase, to_lowercase, FsEntryType};
use crate::preview::path_extension;

verus! {

/// The largest read a peer may request, in bytes.
pub const MAX_FS_READ_BYTES: u64 = 4194304;

/// Why a filesystem request was refused.
#[derive(Debug, Clone)]
pub enum FsProviderError {
    Filesystem(String),
}

/// The directory shared with peers.
pub struct DesktopFilesystemProvider {
    /// The shared root as configured.
    pub root: String,
    /// The shared root with links resolved.
    pub root_canonical: String,
}

/// Whether `s[i..j]` is a whole `/`-separated segment of `s`.
pub open spec fn is_segment(s: Seq<char>, i: int, j: int) -> bool {
    &&& 0 <= i <= j <= s.len()
    &&& i == 0 || s[i - 1] == '/'
    &&& j == s.len() || s[j] == '/'
    &&& forall|k: int| i <= k < j ==> s[k] != '/'
}

/// Whether the path has a `..` component.
pub open spec fn has_parent_dir(s: Seq<char>) -> bool {
    exists|i: int, j: int| #[trigger] is_segment(s, i, j) && s.subrange(i, j) == ".."@
}

/// `s` without its leading slashes.
pub open spec fn trim_leading_slashes(s: Seq<char>) -> Seq<char>
    decreases s.len(),
{
    if s.len() > 0 && s[0] == '/' {
        trim_leading_slashes(s.drop_first())
    } else {
        s
    }
}

/// `base` joined with a relative path `rel` (as `Path::join`).
pub open spec fn join_spec(base: Seq<char>, rel: Seq<char>) -> Seq<char> {
    if base.len() > 0 && base.last() == '/' {
        base + rel
    } else {
        base + seq!['/'] + rel
    }
}

/// The path a request names under the root, before links are resolved:
/// leading slashes are dropped, a `..` component is refused, and an empty
/// request names the root itself.
pub open spec fn requested_path_spec(root: Seq<char>, path: Seq<char>) -> Option<Seq<char>> {
    let safe = trim_leading_slashes(path);
    if has_parent_dir(safe) {
        None
    } else if safe.len() == 0 {
        Some(root)
    } else {
        Some(join_spec(root, safe))
    }
}

fn has_parent_dir_chars(s: &[char]) -> (b: bool)
    ensures
        b == has_parent_dir(s@),
{
    proof {
        reveal_strlit("..");
        assert(".."@.len() == 2 && ".."@[0] == '.' && ".."@[1] == '.');
    }
    let n = s.len();
    let mut start: usize = 0;
    loop
        invariant
            0 <= start <= n,
            n == s@.len(),
            start == 0 || s@[start - 1] == '/',
            forall|a: int, c: int| #[trigger] is_segment(s@, a, c) && a < start ==> s@.subrange(a, c)
                != ".."@,
        decreases n - start,
    {
        proof {
            reveal_strlit("..");
            assert(".."@.len() == 2 && ".."@[0] == '.' && ".."@[1] == '.');
        }
        let mut end = start;
        while end < n && s[end] != '/'
            invariant
                start <= end <= n,
                n == s@.len(),
                forall|k: int| start <= k < end ==> s@[k] != '/',
            decreases n - end,
        {
            end = end + 1;
        }
        assert(is_segment(s@, start as int, end as int));
        if end - start == 2 && s[start] == '.' && s[start + 1] == '.' {
            assert(s@.subrange(start as int, end as int) =~= ".."@);
            return true;
        }
        assert forall|a: int, c: int| #[trigger] is_segment(s@, a, c) && a < end + 1 implies s@.subrange(a, c)
            != ".."@ by {
            if a >= start {
                if a > start {
                    assert(s@[a - 1] != '/');
                }
                if c != end {
                    if c < end {
                        assert(s@[c] != '/');
                    } else {
                        assert(s@[end as int] == '/');
                    }
                }
                if s@.subrange(a, c) == ".."@ {
                    assert(s@.subrange(a, c).len() == 2);
                    assert(s@.subrange(a, c)[0] == s@[a] && s@.subrange(a, c)[1] == s@[a + 1]);
                }
            }
        }
        if end == n {
            assert forall|a: int, c: int| #[trigger] is_segment(s@, a, c) implies s@.subrange(a, c)
                != ".."@ by {
                assert(a <= n);
            }
            return false;
        }
        start = end + 1;
    }
}

/// The `/`-separated pieces of a path, empty ones included.
pub open spec fn split_slash(s: Seq<char>) -> Seq<Seq<char>>
    decreases s.len(),
{
    if s.len() == 0 {
        seq![seq![]]
    } else if s.last() == '/' {
        split_slash(s.drop_last()).push(seq![])
    } else {
        let r = split_slash(s.drop_last());
        r.update(r.len() - 1, r.last().push(s.last()))
    }
}

/// The named components among pieces: neither empty nor `.`.
pub open spec fn named_pieces(p: Seq<Seq<char>>) -> Seq<Seq<char>>
    decreases p.len(),
{
    if p.len() == 0 {
        seq![]
    } else {
        let rest = named_pieces(p.drop_last());
        if p.last().len() == 0 || p.last() == seq!['.'] {
            rest
        } else {
            rest.push(p.last())
        }
    }
}

/// Whether a relative path begins with a `.` component (which `Path` keeps).
pub open spec fn leading_cur_dir(s: Seq<char>) -> bool {
    s.len() > 0 && s[0] == '.' && (s.len() == 1 || s[1] == '/')
}

/// The components of a path after its root (as `Path::components` lists
/// them): a leading `.` of a relative path, then the pieces that are neither
/// empty nor `.`.
pub open spec fn components(s: Seq<char>) -> Seq<Seq<char>> {
    (if leading_cur_dir(s) {
        seq![seq!['.']]
    } else {
        seq![]
    }) + named_pieces(split_slash(s))
}

/// Whether `path` lies under `base`, comparing whole components (as
/// `Path::starts_with`): both rooted or both not, and the components of
/// `base` begin those of `path`.
pub open spec fn path_starts_with(path: Seq<char>, base: Seq<char>) -> bool {
    &&& (path.len() > 0 && path[0] == '/') == (base.len() > 0 && base[0] == '/')
    &&& components(base).len() <= components(path).len()
    &&& components(path).subrange(0, components(base).len() as int) == components(base)
}

proof fn lemma_split_slash_nonempty(s: Seq<char>)
    ensures
        split_slash(s).len() >= 1,
    decreases s.len(),
{
    if s.len() > 0 {
        lemma_split_slash_nonempty(s.drop_last());
    }
}

fn is_named_piece(p: &Vec<char>) -> (b: bool)
    ensures
        b == !(p@.len() == 0 || p@ == seq!['.']),
{
    if p.len() == 0 {
        return false;
    }
    if p.len() == 1 && p[0] == '.' {
        assert(p@ =~= seq!['.']);
        return false;
    }
    proof {
        if p@ == seq!['.'] {
            assert(p@.len() == 1 && p@[0] == '.');
        }
    }
    true
}

fn components_of(s: &[char]) -> (r: Vec<Vec<char>>)
    ensures
        r@.len() == components(s@).len(),
        forall|k: int| 0 <= k < r@.len() ==> #[trigger] r@[k]@ == components(s@)[k],
{
    let lead = s.len() > 0 && s[0] == '.' && (s.len() == 1 || s[1] == '/');
    let ghost prefix: Seq<Seq<char>> = if lead {
        seq![seq!['.']]
    } else {
        seq![]
    };
    let mut r: Vec<Vec<char>> = Vec::new();
    if lead {
        let mut d: Vec<char> = Vec::new();
        d.push('.');
        r.push(d);
    }
    let mut cur: Vec<char> = Vec::new();
    let mut i: usize = 0;
    assert(s@.take(0) =~= Seq::<char>::empty());
    assert(split_slash(s@.take(0)).drop_last() =~= Seq::<Seq<char>>::empty());
    while i < s.len()
        invariant
            0 <= i <= s@.len(),
            leading_cur_dir(s@) == (prefix.len() == 1),
            prefix.len() <= 1,
            prefix.len() == 1 ==> prefix[0] == seq!['.'],
            cur@ == split_slash(s@.take(i as int)).last(),
            r@.len() == prefix.len() + named_pieces(split_slash(s@.take(i as int)).drop_last()).len(),
            forall|k: int| 0 <= k < r@.len() ==> #[trigger] r@[k]@ == (prefix + named_pieces(
                split_slash(s@.take(i as int)).drop_last(),
            ))[k],
        decreases s@.len() - i,
    {
        let ghost old_pieces = split_slash(s@.take(i as int));
        proof {
            lemma_split_slash_nonempty(s@.take(i as int));
        }
        let ghost t = s@.take(i + 1);
        assert(t.drop_last() =~= s@.take(i as int));
        assert(t.last() == s@[i as int]);
        if s[i] == '/' {
            assert(split_slash(t) == old_pieces.push(seq![]));
            let ghost dl = old_pieces.drop_last();
            assert(split_slash(t).drop_last() =~= dl.push(cur@));
            assert(dl.push(cur@).drop_last() =~= dl);
            let named = is_named_piece(&cur);
            let ghost before = prefix + named_pieces(dl);
            let piece = cur;
            if named {
                assert(named_pieces(dl.push(piece@)) == named_pieces(dl).push(piece@));
                assert(prefix + named_pieces(dl).push(piece@) =~= before.push(piece@));
                r.push(piece);
            } else {
                assert(named_pieces(dl.push(piece@)) == named_pieces(dl));
            }
            cur = Vec::new();
        } else {
            assert(split_slash(t).drop_last() =~= old_pieces.drop_last());
            cur.push(s[i]);
        }
        i = i + 1;
    }
    assert(s@.take(s@.len() as int) =~= s@);
    let ghost pieces = split_slash(s@);
    proof {
        lemma_split_slash_nonempty(s@);
    }
    assert(pieces =~= pieces.drop_last().push(pieces.last()));
    let named = is_named_piece(&cur);
    if named {
        r.push(cur);
    }
    r
}

fn same_chars(a: &Vec<char>, b: &Vec<char>) -> (r: bool)
    ensures
        r == (a@ == b@),
{
    if a.len() != b.len() {
        return false;
    }
    let mut i: usize = 0;
    while i < a.len()
        invariant
            0 <= i <= a@.len() == b@.len(),
            forall|k: int| 0 <= k < i ==> a@[k] == b@[k],
        decreases a@.len() - i,
    {
        if a[i] != b[i] {
            return false;
        }
        i = i + 1;
    }
    assert(a@ =~= b@);
    true
}


/// `s` without its trailing slashes.
pub open spec fn trim_trailing_slashes(s: Seq<char>) -> Seq<char>
    decreases s.len(),
{
    if s.len() > 0 && s.last() == '/' {
        trim_trailing_slashes(s.drop_last())
    } else {
        s
    }
}

/// The path reported for an entry named `name` listed in the requested
/// directory `path`: `/name` at the root (an empty or `/` request), else the
/// request without trailing slashes, a slash, and the name.
pub open spec fn entry_path_spec(path: Seq<char>, name: Seq<char>) -> Seq<char> {
    if path.len() == 0 || path == seq!['/'] {
        seq!['/'] + name
    } else {
        trim_trailing_slashes(path) + seq!['/'] + name
    }
}

/// The path reported for an entry named `file_name` listed in `path`.
pub fn entry_path(path: &str, file_name: &str) -> (r: String)
    ensures
        r@ == entry_path_spec(path@, file_name@),
{
    let cs = chars_of(path);
    let names = chars_of(file_name);
    let mut r = String::new();
    if cs.len() == 0 || (cs.len() == 1 && cs[0] == '/') {
        proof {
            if cs@.len() == 1 {
                assert(cs@ =~= seq!['/']);
            }
        }
        push_char(&mut r, '/');
        push_chars(&mut r, names.as_slice());
        assert(r@ =~= entry_path_spec(path@, file_name@));
        return r;
    }
    proof {
        if cs@ == seq!['/'] {
            assert(cs@.len() == 1 && cs@[0] == '/');
        }
    }
    let mut end = cs.len();
    assert(cs@.take(end as int) =~= cs@);
    while end > 0 && cs[end - 1] == '/'
        invariant
            0 <= end <= cs@.len(),
            trim_trailing_slashes(cs@) == trim_trailing_slashes(cs@.take(end as int)),
        decreases end,
    {
        assert(cs@.take(end as int).drop_last() =~= cs@.take(end - 1));
        end = end - 1;
    }
    assert(trim_trailing_slashes(cs@.take(end as int)) == cs@.take(end as int));
    let kept = &cs[0..end];
    assert(kept@ =~= cs@.take(end as int));
    push_chars(&mut r, kept);
    push_char(&mut r, '/');
    push_chars(&mut r, names.as_slice());
    assert(r@ =~= entry_path_spec(path@, file_name@));
    r
}

/// "Read size <size> exceeds limit <limit>".
pub open spec fn read_size_message(size: u64) -> Seq<char> {
    "Read size "@ + dec(size as nat) + " exceeds limit "@ + dec(MAX_FS_READ_BYTES as nat)
}

/// Refuses a read of more than `MAX_FS_READ_BYTES` bytes.
pub fn check_read_size(size: u64) -> (r: Result<(), FsProviderError>)
    ensures
        size <= MAX_FS_READ_BYTES ==> r is Ok,
        size > MAX_FS_READ_BYTES ==> (r matches Err(FsProviderError::Filesystem(m)) && m@
            == read_size_message(size)),
{
    if size > MAX_FS_READ_BYTES {
        let mut m = String::from_str("Read size ");
        let a = decimal_string(size);
        m.append(a.as_str());
        m.append(" exceeds limit ");
        let b = decimal_string(MAX_FS_READ_BYTES);
        m.append(b.as_str());
        return Err(FsProviderError::Filesystem(m));
    }
    Ok(())
}

/// How a listed or inspected entry is classified, from what its own
/// metadata says without following links: a link first, then a directory,
/// else a file.
pub open spec fn entry_type_spec(is_symlink: bool, is_dir: bool) -> FsEntryType {
    if is_symlink {
        FsEntryType::Symlink
    } else if is_dir {
        FsEntryType::Directory
    } else {
        FsEntryType::File
    }
}

/// Classifies an entry from its unfollowed metadata.
pub fn entry_type_of(is_symlink: bool, is_dir: bool) -> (t: FsEntryType)
    ensures
        t == entry_type_spec(is_symlink, is_dir),
{
    if is_symlink {
        FsEntryType::Symlink
    } else if is_dir {
        FsEntryType::Directory
    } else {
        FsEntryType::File
    }
}

/// The last component of a path when it names something (as
/// `Path::file_name`): none for a root, a lone `.`, or a trailing `..`.
pub open spec fn file_name_spec(p: Seq<char>) -> Option<Seq<char>> {
    let c = components(p);
    if c.len() > 0 && c.last() != seq!['.'] && c.last() != seq!['.', '.'] {
        Some(c.last())
    } else {
        None
    }
}

/// The index of the last `.` in `s`.
pub open spec fn last_dot(s: Seq<char>) -> Option<int>
    decreases s.len(),
{
    if s.len() == 0 {
        None
    } else if s.last() == '.' {
        Some(s.len() - 1)
    } else {
        last_dot(s.drop_last())
    }
}

/// The extension of a file name (as `Path::extension`): what follows its
/// last `.`, unless that dot is the first character or the name is `..`.
pub open spec fn extension_spec(name: Seq<char>) -> Option<Seq<char>> {
    if name == seq!['.', '.'] {
        None
    } else {
        match last_dot(name) {
            Some(i) => if i > 0 {
                Some(name.skip(i + 1))
            } else {
                None
            },
            None => None,
        }
    }
}

/// The name shown for an inspected path: its file name, or "unknown".
pub open spec fn entry_name_spec(p: Seq<char>) -> Seq<char> {
    match file_name_spec(p) {
        Some(n) => n,
        None => "unknown"@,
    }
}

/// The extensions of the images that get thumbnails.
pub open spec fn is_thumbnail_extension(e: Seq<char>) -> bool {
    ||| e == "jpg"@
    ||| e == "jpeg"@
    ||| e == "png"@
    ||| e == "gif"@
    ||| e == "webp"@
    ||| e == "bmp"@
    ||| e == "ico"@
}

/// Whether a thumbnail is attempted for the resolved path: its extension,
/// lowercased, is one of the image extensions.
pub open spec fn wants_thumbnail_spec(p: Seq<char>) -> bool {
    match file_name_spec(p) {
        Some(n) => match extension_spec(n) {
            Some(e) => is_thumbnail_extension(lowercase(e)),
            None => false,
        },
        None => false,
    }
}


fn same_text(a: &str, b: &str) -> (r: bool)
    ensures
        r == (a@ == b@),
{
    let x = chars_of(a);
    let y = chars_of(b);
    same_chars(&x, &y)
}

pub(crate) fn file_name_chars(cs: &[char]) -> (r: Option<Vec<char>>)
    ensures
        match file_name_spec(cs@) {
            Some(n) => r matches Some(v) && v@ == n,
            None => r is None,
        },
{
    let mut comps = components_of(cs);
    let ghost c = components(cs@);
    if comps.len() == 0 {
        return None;
    }
    let ghost before = comps@;
    let last = comps.pop().unwrap();
    assert(last@ == c.last());
    if last.len() == 1 && last[0] == '.' {
        assert(last@ =~= seq!['.']);
        return None;
    }
    if last.len() == 2 && last[0] == '.' && last[1] == '.' {
        assert(last@ =~= seq!['.', '.']);
        return None;
    }
    proof {
        if last@ == seq!['.'] {
            assert(last@.len() == 1 && last@[0] == '.');
        }
        if last@ == seq!['.', '.'] {
            assert(last@.len() == 2 && last@[0] == '.' && last@[1] == '.');
        }
    }
    Some(last)
}

pub(crate) fn extension_chars(name: &Vec<char>) -> (r: Option<Vec<char>>)
    ensures
        match extension_spec(name@) {
            Some(e) => r matches Some(v) && v@ == e,
            None => r is None,
        },
{
    if name.len() == 2 && name[0] == '.' && name[1] == '.' {
        assert(name@ =~= seq!['.', '.']);
        return None;
    }
    proof {
        if name@ == seq!['.', '.'] {
            assert(name@.len() == 2 && name@[0] == '.' && name@[1] == '.');
        }
    }
    let mut j = name.len();
    assert(name@.take(j as int) =~= name@);
    while j > 0 && name[j - 1] != '.'
        invariant
            0 <= j <= name@.len(),
            last_dot(name@) == last_dot(name@.take(j as int)),
        decreases j,
    {
        assert(name@.take(j as int).drop_last() =~= name@.take(j - 1));
        j = j - 1;
    }
    if j == 0 {
        assert(name@.take(0) =~= Seq::<char>::empty());
        return None;
    }
    assert(name@.take(j as int).last() == '.');
    if j == 1 {
        return None;
    }
    let ext = &name[j..name.len()];
    assert(ext@ =~= name@.skip(j as int));
    Some(slice_to_vec(ext))
}

fn slice_to_vec(s: &[char]) -> (v: Vec<char>)
    ensures
        v@ == s@,
{
    let mut v: Vec<char> = Vec::new();
    let mut i: usize = 0;
    while i < s.len()
        invariant
            0 <= i <= s@.len(),
            v@ == s@.take(i as int),
        decreases s@.len() - i,
    {
        v.push(s[i]);
        assert(s@.take(i + 1) =~= s@.take(i as int).push(s@[i as int]));
        i = i + 1;
    }
    assert(s@.take(s@.len() as int) =~= s@);
    v
}

/// The name shown for an inspected path: its file name, or "unknown".
pub fn entry_name(path: &str) -> (r: String)
    ensures
        r@ == entry_name_spec(path@),
{
    let cs = chars_of(path);
    match file_name_chars(cs.as_slice()) {
        Some(n) => string_of(n.as_slice()),
        None => String::from_str("unknown"),
    }
}

/// Whether the path's extension, lowercased, is jpg, jpeg, png, gif,
/// webp, bmp or ico.
pub open spec fn picture_extension(p: Seq<char>) -> bool {
    match path_extension(p) {
        Some(e) => {
            let l = lowercase(e);
            ||| l == "jpg"@
            ||| l == "jpeg"@
            ||| l == "png"@
            ||| l == "gif"@
            ||| l == "webp"@
            ||| l == "bmp"@
            ||| l == "ico"@
        },
        None => false,
    }
}

/// A thumbnail is attempted exactly for the paths whose extension,
/// lowercased, is jpg, jpeg, png, gif, webp, bmp or ico.
pub proof fn lemma_thumbnail_extensions(p: Seq<char>)
    ensures
        wants_thumbnail_spec(p) == picture_extension(p),
{
}

/// Whether a thumbnail is attempted for the resolved path `path`.
pub fn wants_thumbnail(path: &str) -> (b: bool)
    ensures
        b == wants_thumbnail_spec(path@),
        b == picture_extension(path@),
{
    let cs = chars_of(path);
    let name = match file_name_chars(cs.as_slice()) {
        Some(n) => n,
        None => return false,
    };
    let ext = match extension_chars(&name) {
        Some(e) => e,
        None => return false,
    };
    let ext_text = string_of(ext.as_slice());
    let lower = to_lowercase(ext_text.as_str());
    let l = lower.as_str();
    same_text(l, "jpg") || same_text(l, "jpeg") || same_text(l, "png") || same_text(l, "gif")
        || same_text(l, "webp") || same_text(l, "bmp") || same_text(l, "ico")
}


/// The largest width or height of an image that gets a thumbnail.
pub const MAX_THUMBNAIL_DIMENSION: u32 = 16384;

/// "Image too large for thumbnail: <w>x<h> (max 16384x16384)".
pub open spec fn image_too_large_message(width: u32, height: u32) -> Seq<char> {
    "Image too large for thumbnail: "@ + dec(width as nat) + "x"@ + dec(height as nat) + " (max "@
        + dec(MAX_THUMBNAIL_DIMENSION as nat) + "x"@ + dec(MAX_THUMBNAIL_DIMENSION as nat) + ")"@
}

/// Refuses to decode an image wider or taller than
/// `MAX_THUMBNAIL_DIMENSION`.
pub fn check_thumbnail_dimensions(width: u32, height: u32) -> (r: Result<(), String>)
    ensures
        width <= MAX_THUMBNAIL_DIMENSION && height <= MAX_THUMBNAIL_DIMENSION ==> r is Ok,
        !(width <= MAX_THUMBNAIL_DIMENSION && height <= MAX_THUMBNAIL_DIMENSION) ==> (r matches Err(
            m,
        ) && m@ == image_too_large_message(width, height)),
{
    if width > MAX_THUMBNAIL_DIMENSION || height > MAX_THUMBNAIL_DIMENSION {
        let mut m = String::from_str("Image too large for thumbnail: ");
        let w = decimal_string(width as u64);
        m.append(w.as_str());
        m.append("x");
        let h = decimal_string(height as u64);
        m.append(h.as_str());
        m.append(" (max ");
        let a = decimal_string(MAX_THUMBNAIL_DIMENSION as u64);
        m.append(a.as_str());
        m.append("x");
        m.append(a.as_str());
        m.append(")");
        return Err(m);
    }
    Ok(())
}

/// The error reported when a thumbnail could not be made, for the given
/// reason: "Thumbnail generation failed: <reason>".
pub fn thumbnail_failure(reason: &str) -> (e: FsProviderError)
    ensures
        e matches FsProviderError::Filesystem(m) && m@ == "Thumbnail generation failed: "@ + reason@,
{
    let mut m = String::from_str("Thumbnail generation failed: ");
    m.append(reason);
    FsProviderError::Filesystem(m)
}

/// What the `image` crate reads from an image's header when the image is
/// taken in the format its file extension names: the width and height, or
/// the text of the error.
pub uninterp spec fn image_header(ext: Seq<char>, image: Seq<u8>) -> Result<(u32, u32), Seq<char>>;

/// The `image` crate's dimensions of an image in the format named by its
/// file extension (`ImageFormat::from_extension`, then
/// `ImageReader::into_dimensions`), as `ImageReader::open` does for a file
/// with that extension; an extension it does not recognise gives the
/// crate's own error for it. The result, or the error's text, is named
/// `image_header` of the extension and the bytes.
#[verifier::external_body]
fn image_dimensions(ext: &str, image: &[u8]) -> (r: Result<(u32, u32), String>)
    ensures
        match r {
            Ok(d) => image_header(ext@, image@) == Ok::<(u32, u32), Seq<char>>(d),
            Err(m) => image_header(ext@, image@) == Err::<(u32, u32), Seq<char>>(m@),
        },
{
    match image::ImageFormat::from_extension(ext) {
        Some(f) => image::ImageReader::with_format(std::io::Cursor::new(image), f)
            .into_dimensions()
            .map_err(|e| e.to_string()),
        None => Err(image::ImageError::Unsupported(
            image::error::ImageFormatHint::PathExtension(std::path::PathBuf::from(ext)).into(),
        ).to_string()),
    }
}

/// The JPEG thumbnail, at most 96x96, that the `image` crate makes of an
/// image in the format its file extension names, or the text of the error.
pub uninterp spec fn jpeg_thumbnail(ext: Seq<char>, image: Seq<u8>) -> Result<Seq<u8>, Seq<char>>;

/// Decodes the image in the format named by its file extension, shrinks it
/// with `DynamicImage::thumbnail(96, 96)` and writes it as JPEG (as
/// `image::open`, `thumbnail` and `write_to` do for a file). The bytes, or
/// the error's text, are named `jpeg_thumbnail` of the extension and the
/// image.
#[verifier::external_body]
fn make_jpeg_thumbnail(ext: &str, image: &[u8]) -> (r: Result<Vec<u8>, String>)
    ensures
        match r {
            Ok(v) => jpeg_thumbnail(ext@, image@) == Ok::<Seq<u8>, Seq<char>>(v@),
            Err(m) => jpeg_thumbnail(ext@, image@) == Err::<Seq<u8>, Seq<char>>(m@),
        },
{
    let format = image::ImageFormat::from_extension(ext).ok_or_else(|| image::ImageError::Unsupported(
        image::error::ImageFormatHint::PathExtension(std::path::PathBuf::from(ext)).into(),
    ).to_string())?;
    let img = image::ImageReader::with_format(std::io::Cursor::new(image), format).decode().map_err(|e| e.to_string())?;
    let mut buffer = std::io::Cursor::new(Vec::new());
    img.thumbnail(96, 96).write_to(&mut buffer, image::ImageFormat::Jpeg).map_err(|e| e.to_string())?;
    Ok(buffer.into_inner())
}

/// The thumbnail served for the resolved path `path` whose file holds
/// `image`: nothing for a file that gets none; for a picture, the
/// dimensions are read first and too large a picture is refused; otherwise
/// the JPEG thumbnail. Every failure is "Thumbnail generation failed: "
/// followed by its reason.
pub open spec fn thumbnail_result(path: Seq<char>, image: Seq<u8>) -> Result<Seq<u8>, Seq<char>> {
    if !wants_thumbnail_spec(path) {
        Ok(Seq::empty())
    } else {
        let ext = match path_extension(path) {
            Some(e) => e,
            None => Seq::empty(),
        };
        match image_header(ext, image) {
            Err(m) => Err("Thumbnail generation failed: "@ + m),
            Ok((w, h)) => if w > MAX_THUMBNAIL_DIMENSION || h > MAX_THUMBNAIL_DIMENSION {
                Err("Thumbnail generation failed: "@ + image_too_large_message(w, h))
            } else {
                match jpeg_thumbnail(ext, image) {
                    Ok(t) => Ok(t),
                    Err(m) => Err("Thumbnail generation failed: "@ + m),
                }
            },
        }
    }
}

/// The thumbnail of the file at the resolved path `path`, whose contents
/// are `image`.
pub fn thumbnail_of_file(path: &str, image: &[u8]) -> (r: Result<Vec<u8>, FsProviderError>)
    ensures
        match thumbnail_result(path@, image@) {
            Ok(t) => r matches Ok(v) && v@ == t,
            Err(m) => r matches Err(FsProviderError::Filesystem(e)) && e@ == m,
        },
{
    if !wants_thumbnail(path) {
        return Ok(Vec::new());
    }
    let cs = chars_of(path);
    let ext = match file_name_chars(cs.as_slice()) {
        Some(n) => match extension_chars(&n) {
            Some(e) => string_of(e.as_slice()),
            None => String::new(),
        },
        None => String::new(),
    };
    match image_dimensions(ext.as_str(), image) {
        Err(m) => Err(thumbnail_failure(m.as_str())),
        Ok((w, h)) => match check_thumbnail_dimensions(w, h) {
            Err(m) => Err(thumbnail_failure(m.as_str())),
            Ok(()) => match make_jpeg_thumbnail(ext.as_str(), image) {
                Ok(v) => Ok(v),
                Err(m) => Err(thumbnail_failure(m.as_str())),
            },
        },
    }
}

/// Whether the resolved path `path` stays under the resolved root `base`,
/// comparing whole components.
pub fn starts_with_path(path: &str, base: &str) -> (b: bool)
    ensures
        b == path_starts_with(path@, base@),
{
    let ps = chars_of(path);
    let bs = chars_of(base);
    let p_root = ps.len() > 0 && ps[0] == '/';
    let b_root = bs.len() > 0 && bs[0] == '/';
    if p_root != b_root {
        return false;
    }
    let pc = components_of(ps.as_slice());
    let bc = components_of(bs.as_slice());
    if bc.len() > pc.len() {
        return false;
    }
    let mut i: usize = 0;
    while i < bc.len()
        invariant
            0 <= i <= bc@.len() <= pc@.len(),
            ps@ == path@,
            bs@ == base@,
            pc@.len() == components(ps@).len(),
            bc@.len() == components(bs@).len(),
            forall|k: int| 0 <= k < pc@.len() ==> #[trigger] pc@[k]@ == components(ps@)[k],
            forall|k: int| 0 <= k < bc@.len() ==> #[trigger] bc@[k]@ == components(bs@)[k],
            forall|k: int| 0 <= k < i ==> components(ps@)[k] == components(bs@)[k],
        decreases bc@.len() - i,
    {
        if !same_chars(&pc[i], &bc[i]) {
            assert(components(ps@).subrange(0, bc@.len() as int)[i as int] == components(ps@)[i as int]);
            assert(components(ps@).subrange(0, bc@.len() as int) != components(bs@));
            return false;
        }
        i = i + 1;
    }
    assert(components(ps@).subrange(0, bc@.len() as int) =~= components(bs@));
    true
}


/// An accepted request names the root or a path below it by its text: the
/// root comes first, and what follows has no `..` component.
pub proof fn lemma_requested_path_under_root(root: Seq<char>, path: Seq<char>)
    ensures
        requested_path_spec(root, path) matches Some(q) ==> q.len() >= root.len() && q.take(
            root.len() as int,
        ) == root && !has_parent_dir(trim_leading_slashes(path)),
{
    if let Some(q) = requested_path_spec(root, path) {
        let safe = trim_leading_slashes(path);
        if safe.len() > 0 {
            if root.len() > 0 && root.last() == '/' {
                assert((root + safe).take(root.len() as int) =~= root);
            } else {
                assert((root + seq!['/'] + safe).take(root.len() as int) =~= root);
            }
        } else {
            assert(root.take(root.len() as int) =~= root);
        }
    }
}

/// The shared root itself is always served.
pub proof fn lemma_root_is_contained(root: Seq<char>)
    ensures
        path_starts_with(root, root),
{
    assert(components(root).subrange(0, components(root).len() as int) =~= components(root));
}

impl DesktopFilesystemProvider {
    /// Accepts a link-resolved path only when it stays under the resolved
    /// root; otherwise "Path escapes root".
    pub fn contained_path(&self, canonical: String) -> (r: Result<String, FsProviderError>)
        ensures
            path_starts_with(canonical@, self.root_canonical@) ==> (r matches Ok(s) && s@
                == canonical@),
            !path_starts_with(canonical@, self.root_canonical@) ==> (r matches Err(
                FsProviderError::Filesystem(m),
            ) && m@ == "Path escapes root"@),
    {
        if starts_with_path(canonical.as_str(), self.root_canonical.as_str()) {
            Ok(canonical)
        } else {
            Err(FsProviderError::Filesystem(String::from_str("Path escapes root")))
        }
    }

    /// Remote writes are refused, whatever the request.
    pub fn write_file(&self, path: &str, offset: u64, data: &[u8]) -> (r: Result<
        u64,
        FsProviderError,
    >)
        ensures
            r matches Err(FsProviderError::Filesystem(m)) && m@
                == "Remote file writes are disabled for security reasons"@,
    {
        Err(
            FsProviderError::Filesystem(
                String::from_str("Remote file writes are disabled for security reasons"),
            ),
        )
    }

    /// A provider sharing `root`, whose link-resolved form is `root_canonical`.
    pub fn new(root: String, root_canonical: String) -> (p: Self)
        ensures
            p.root == root,
            p.root_canonical == root_canonical,
    {
        DesktopFilesystemProvider { root, root_canonical }
    }

    /// The path a request names under the root, before links are resolved;
    /// "Invalid path" when it climbs out with `..`.
    pub fn requested_path(&self, path: &str) -> (r: Result<String, FsProviderError>)
        ensures
            match requested_path_spec(self.root@, path@) {
                Some(p) => r matches Ok(s) && s@ == p,
                None => r matches Err(FsProviderError::Filesystem(m)) && m@ == "Invalid path"@,
            },
    {
        let cs = chars_of(path);
        let mut i: usize = 0;
        assert(cs@.skip(0) == cs@);
        while i < cs.len() && cs[i] == '/'
            invariant
                0 <= i <= cs@.len(),
                trim_leading_slashes(cs@) == trim_leading_slashes(cs@.skip(i as int)),
            decreases cs@.len() - i,
        {
            assert(cs@.skip(i as int).drop_first() == cs@.skip(i + 1));
            i = i + 1;
        }
        assert(cs@.skip(0) == cs@);
        let safe = &cs[i..cs.len()];
        assert(safe@ == cs@.skip(i as int));
        assert(trim_leading_slashes(safe@) == safe@);
        if has_parent_dir_chars(safe) {
            return Err(FsProviderError::Filesystem(String::from_str("Invalid path")));
        }
        if safe.len() == 0 {
            return Ok(self.root.clone());
        }
        let mut full = self.root.clone();
        let rc = chars_of(self.root.as_str());
        if !(rc.len() > 0 && rc[rc.len() - 1] == '/') {
            push_char(&mut full, '/');
        }
        push_chars(&mut full, safe);
        Ok(full)
    }
}

} // verus!
