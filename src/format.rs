//! Classification of photo files by their extension.
use vstd::prelude::*;

verus! {

/// Processing category of a file, decided by its extension alone.
#[derive(Clone, Copy, Debug, PartialEq, Eq, Structural)]
pub enum FileType {
    Raw,
    Heif,
    Standard,
    Unsupported,
}

// ---------------------------------------------------------------------------
// Text model
// ---------------------------------------------------------------------------

/// ASCII lower-casing of one character; every other character is kept.
pub open spec fn lower_char(c: char) -> char {
    if 'A' <= c && c <= 'Z' {
        ((c as u8) + 32) as char
    } else {
        c
    }
}

/// ASCII upper-casing of one character; every other character is kept.
pub open spec fn upper_char(c: char) -> char {
    if 'a' <= c && c <= 'z' {
        ((c as u8) - 32) as char
    } else {
        c
    }
}

pub open spec fn lower(s: Seq<char>) -> Seq<char> {
    s.map_values(|c: char| lower_char(c))
}

pub open spec fn upper(s: Seq<char>) -> Seq<char> {
    s.map_values(|c: char| upper_char(c))
}

/// Index just after the last occurrence of `c` in `s`, or 0 when `c` does not occur.
pub open spec fn after_last(s: Seq<char>, c: char) -> nat
    decreases s.len(),
{
    if s.len() == 0 {
        0
    } else if s.last() == c {
        s.len()
    } else {
        after_last(s.drop_last(), c)
    }
}

/// The last component of a path: the text after its last `/`.
pub open spec fn file_name(p: Seq<char>) -> Seq<char> {
    p.subrange(after_last(p, '/') as int, p.len() as int)
}

/// The extension of a file name: the text after its last dot, provided that
/// dot is not the name's first character (`.profile` has none) and the name
/// is not `..`.
pub open spec fn name_extension(name: Seq<char>) -> Option<Seq<char>> {
    let d = after_last(name, '.');
    if d <= 1 || name == seq!['.', '.'] {
        None
    } else {
        Some(name.subrange(d as int, name.len() as int))
    }
}

pub open spec fn path_extension(p: Seq<char>) -> Option<Seq<char>> {
    name_extension(file_name(p))
}

proof fn lemma_after_last_bound(s: Seq<char>, c: char)
    ensures
        after_last(s, c) <= s.len(),
    decreases s.len(),
{
    if s.len() > 0 && s.last() != c {
        lemma_after_last_bound(s.drop_last(), c);
    }
}

/// An extension is a proper suffix of its path, after a dot.
pub proof fn lemma_extension_fits(p: Seq<char>)
    ensures
        path_extension(p) matches Some(e) ==> e.len() + 1 <= p.len(),
{
    lemma_after_last_bound(p, '/');
    let name = file_name(p);
    lemma_after_last_bound(name, '.');
}

/// The dotted, lower-cased extension of a path (`.jpg`), or the empty text.
pub open spec fn dotted_lower_extension(p: Seq<char>) -> Seq<char> {
    match path_extension(p) {
        Some(e) => seq!['.'] + lower(e),
        None => Seq::empty(),
    }
}

pub open spec fn ends_with(s: Seq<char>, suffix: Seq<char>) -> bool {
    suffix.len() <= s.len() && s.subrange(s.len() - suffix.len(), s.len() as int) == suffix
}

// ---------------------------------------------------------------------------
// Extension sets
// ---------------------------------------------------------------------------

pub open spec fn raw_extensions() -> Seq<Seq<char>> {
    seq![
        ".cr2"@, ".cr3"@, ".nef"@, ".arw"@, ".dng"@, ".raf"@, ".orf"@,
        ".rw2"@, ".pef"@, ".srw"@, ".x3f"@, ".3fr"@, ".iiq"@, ".rwl"@,
    ]
}

pub open spec fn heif_extensions() -> Seq<Seq<char>> {
    seq![".heic"@, ".heif"@]
}

pub open spec fn standard_extensions() -> Seq<Seq<char>> {
    seq![".jpg"@, ".jpeg"@, ".png"@, ".gif"@, ".webp"@, ".bmp"@, ".tiff"@, ".tif"@]
}

/// All recognised extensions, RAW first, then high-efficiency, then standard.
pub open spec fn supported_extensions() -> Seq<Seq<char>> {
    raw_extensions() + heif_extensions() + standard_extensions()
}

/// Extensions of files whose displayable image comes from an embedded preview.
pub open spec fn preview_extensions() -> Seq<Seq<char>> {
    raw_extensions() + heif_extensions()
}

pub open spec fn spec_file_type(p: Seq<char>) -> FileType {
    let e = dotted_lower_extension(p);
    if raw_extensions().contains(e) {
        FileType::Raw
    } else if heif_extensions().contains(e) {
        FileType::Heif
    } else if standard_extensions().contains(e) {
        FileType::Standard
    } else {
        FileType::Unsupported
    }
}

fn raw_extension_list() -> (v: Vec<&'static str>)
    ensures
        v@.map_values(|s: &'static str| s@) == raw_extensions(),
{
    let v = vec![
        ".cr2", ".cr3", ".nef", ".arw", ".dng", ".raf", ".orf",
        ".rw2", ".pef", ".srw", ".x3f", ".3fr", ".iiq", ".rwl",
    ];
    assert(v@.map_values(|s: &'static str| s@) =~= raw_extensions());
    v
}

fn heif_extension_list() -> (v: Vec<&'static str>)
    ensures
        v@.map_values(|s: &'static str| s@) == heif_extensions(),
{
    let v = vec![".heic", ".heif"];
    assert(v@.map_values(|s: &'static str| s@) =~= heif_extensions());
    v
}

fn standard_extension_list() -> (v: Vec<&'static str>)
    ensures
        v@.map_values(|s: &'static str| s@) == standard_extensions(),
{
    let v = vec![".jpg", ".jpeg", ".png", ".gif", ".webp", ".bmp", ".tiff", ".tif"];
    assert(v@.map_values(|s: &'static str| s@) =~= standard_extensions());
    v
}

// ---------------------------------------------------------------------------
// Executable helpers on text
// ---------------------------------------------------------------------------

/// Relies on `String::push`: appends one character.
#[verifier::external_body]
pub(crate) fn push_char(s: &mut String, c: char)
    ensures
        final(s)@ == old(s)@.push(c),
{
    s.push(c)
}

pub(crate) fn chars_of(s: &str) -> (v: Vec<char>)
    ensures
        v@ == s@,
{
    let n = s.unicode_len();
    let mut v: Vec<char> = Vec::new();
    for i in 0..n
        invariant
            n == s@.len(),
            v@ == s@.subrange(0, i as int),
    {
        v.push(s.get_char(i));
    }
    v
}

pub(crate) fn string_of(v: &[char]) -> (s: String)
    ensures
        s@ == v@,
{
    let mut s = String::new();
    for i in 0..v.len()
        invariant
            s@ == v@.subrange(0, i as int),
    {
        push_char(&mut s, v[i]);
    }
    s
}

fn lower_char_exec(c: char) -> (r: char)
    ensures
        r == lower_char(c),
{
    if 'A' <= c && c <= 'Z' {
        ((c as u8) + 32) as char
    } else {
        c
    }
}

fn upper_char_exec(c: char) -> (r: char)
    ensures
        r == upper_char(c),
{
    if 'a' <= c && c <= 'z' {
        ((c as u8) - 32) as char
    } else {
        c
    }
}


pub(crate) fn find_after_last(v: &Vec<char>, c: char) -> (r: usize)
    ensures
        r == after_last(v@, c),
        r <= v.len(),
{
    let mut i = v.len();
    assert(v@.subrange(0, v.len() as int) =~= v@);
    while i > 0 && v[i - 1] != c
        invariant
            i <= v.len(),
            after_last(v@, c) == after_last(v@.subrange(0, i as int), c),
        decreases i,
    {
        assert(v@.subrange(0, i as int).drop_last() =~= v@.subrange(0, i - 1));
        i = i - 1;
    }
    i
}

fn copy_range(v: &Vec<char>, from: usize, to: usize) -> (r: Vec<char>)
    requires
        from <= to <= v.len(),
    ensures
        r@ == v@.subrange(from as int, to as int),
{
    let mut r: Vec<char> = Vec::new();
    for i in from..to
        invariant
            from <= to <= v.len(),
            r@ == v@.subrange(from as int, i as int),
    {
        r.push(v[i]);
    }
    r
}

fn lower_all(v: &Vec<char>) -> (r: Vec<char>)
    ensures
        r@ == lower(v@),
{
    let mut r: Vec<char> = Vec::new();
    for i in 0..v.len()
        invariant
            r@ == lower(v@.subrange(0, i as int)),
    {
        r.push(lower_char_exec(v[i]));
        assert(lower(v@.subrange(0, i + 1)) =~= lower(v@.subrange(0, i as int)).push(lower_char(v@[i as int])));
    }
    assert(v@.subrange(0, v.len() as int) =~= v@);
    r
}

fn upper_all(v: &Vec<char>) -> (r: Vec<char>)
    ensures
        r@ == upper(v@),
{
    let mut r: Vec<char> = Vec::new();
    for i in 0..v.len()
        invariant
            r@ == upper(v@.subrange(0, i as int)),
    {
        r.push(upper_char_exec(v[i]));
        assert(upper(v@.subrange(0, i + 1)) =~= upper(v@.subrange(0, i as int)).push(upper_char(v@[i as int])));
    }
    assert(v@.subrange(0, v.len() as int) =~= v@);
    r
}

fn same_text(a: &Vec<char>, b: &str) -> (r: bool)
    ensures
        r == (a@ == b@),
{
    let n = b.unicode_len();
    if n != a.len() {
        return false;
    }
    for i in 0..n
        invariant
            n == a@.len(),
            n == b@.len(),
            a@.subrange(0, i as int) == b@.subrange(0, i as int),
    {
        if a[i] != b.get_char(i) {
            return false;
        }
        assert(a@.subrange(0, i + 1) =~= a@.subrange(0, i as int).push(a@[i as int]));
        assert(b@.subrange(0, i + 1) =~= b@.subrange(0, i as int).push(b@[i as int]));
    }
    assert(a@ =~= a@.subrange(0, n as int));
    assert(b@ =~= b@.subrange(0, n as int));
    true
}

fn ends_with_text(a: &Vec<char>, suffix: &str) -> (r: bool)
    ensures
        r == ends_with(a@, suffix@),
{
    let n = suffix.unicode_len();
    if n > a.len() {
        return false;
    }
    let tail = copy_range(a, a.len() - n, a.len());
    same_text(&tail, suffix)
}

fn list_contains(list: &Vec<&'static str>, e: &Vec<char>) -> (r: bool)
    ensures
        r == list@.map_values(|s: &'static str| s@).contains(e@),
{
    let ghost views = list@.map_values(|s: &'static str| s@);
    for i in 0..list.len()
        invariant
            views == list@.map_values(|s: &'static str| s@),
            forall|j: int| 0 <= j < i ==> views[j] != e@,
    {
        if same_text(e, list[i]) {
            assert(views[i as int] == e@);
            return true;
        }
    }
    false
}

fn list_has_suffix_of(list: &Vec<&'static str>, a: &Vec<char>) -> (r: bool)
    ensures
        r == exists|j: int| 0 <= j < list@.len() && #[trigger] ends_with(a@, list@[j]@),
{
    for i in 0..list.len()
        invariant
            forall|j: int| 0 <= j < i ==> !#[trigger] ends_with(a@, list@[j]@),
    {
        if ends_with_text(a, list[i]) {
            return true;
        }
    }
    false
}

/// The extension of `path`, if it has one.
pub(crate) fn extension_of(path: &str) -> (r: Option<Vec<char>>)
    ensures
        match r {
            Some(e) => path_extension(path@) == Some(e@),
            None => path_extension(path@) is None,
        },
{
    let p = chars_of(path);
    let start = find_after_last(&p, '/');
    let name = copy_range(&p, start, p.len());
    assert(name@ == file_name(path@));
    let d = find_after_last(&name, '.');
    let is_dot_dot = name.len() == 2 && name[0] == '.' && name[1] == '.';
    assert(is_dot_dot == (name@ == seq!['.', '.'])) by {
        if name@ == seq!['.', '.'] {
            assert(name@[0] == '.' && name@[1] == '.');
        }
        if is_dot_dot {
            assert(name@ =~= seq!['.', '.']);
        }
    }
    if d <= 1 || is_dot_dot {
        None
    } else {
        Some(copy_range(&name, d, name.len()))
    }
}

fn prefixed(prefix: &str, v: &Vec<char>) -> (r: Vec<char>)
    ensures
        r@ == prefix@ + v@,
{
    let mut r = chars_of(prefix);
    for i in 0..v.len()
        invariant
            r@ == prefix@ + v@.subrange(0, i as int),
    {
        r.push(v[i]);
        assert(prefix@ + v@.subrange(0, i + 1) =~= (prefix@ + v@.subrange(0, i as int)).push(v@[i as int]));
    }
    assert(v@.subrange(0, v.len() as int) =~= v@);
    r
}

/// The dotted, lower-cased extension of `path` as characters.
fn dotted_lower_extension_of(path: &str) -> (r: Vec<char>)
    ensures
        r@ == dotted_lower_extension(path@),
{
    match extension_of(path) {
        None => Vec::new(),
        Some(ext) => {
            let low = lower_all(&ext);
            proof {
                reveal_strlit(".");
                assert("."@ =~= seq!['.']);
            }
            prefixed(".", &low)
        },
    }
}

/// Classify a file by its lower-cased extension.
pub fn detect_file_type(file_path: &str) -> (r: FileType)
    ensures
        r == spec_file_type(file_path@),
{
    let e = dotted_lower_extension_of(file_path);
    if list_contains(&raw_extension_list(), &e) {
        FileType::Raw
    } else if list_contains(&heif_extension_list(), &e) {
        FileType::Heif
    } else if list_contains(&standard_extension_list(), &e) {
        FileType::Standard
    } else {
        FileType::Unsupported
    }
}

/// Whether the file's extension is one of the recognised ones.
pub fn is_supported_image(file_path: String) -> (r: bool)
    ensures
        r == (spec_file_type(file_path@) != FileType::Unsupported),
        r == supported_extensions().contains(dotted_lower_extension(file_path@)),
{
    let t = detect_file_type(file_path.as_str());
    proof {
        let e = dotted_lower_extension(file_path@);
        if supported_extensions().contains(e) {
            let i = choose|i: int| 0 <= i < supported_extensions().len() && supported_extensions()[i] == e;
            if i < 14 {
                assert(raw_extensions()[i] == e);
            } else if i < 16 {
                assert(heif_extensions()[i - 14] == e);
            } else {
                assert(standard_extensions()[i - 16] == e);
            }
        }
        if raw_extensions().contains(e) {
            let i = choose|i: int| 0 <= i < raw_extensions().len() && raw_extensions()[i] == e;
            assert(supported_extensions()[i] == e);
        }
        if heif_extensions().contains(e) {
            let i = choose|i: int| 0 <= i < heif_extensions().len() && heif_extensions()[i] == e;
            assert(supported_extensions()[i + 14] == e);
        }
        if standard_extensions().contains(e) {
            let i = choose|i: int| 0 <= i < standard_extensions().len() && standard_extensions()[i] == e;
            assert(supported_extensions()[i + 16] == e);
        }
    }
    t != FileType::Unsupported
}

fn push_strings(out: &mut Vec<String>, list: &Vec<&'static str>)
    ensures
        final(out)@.map_values(|s: String| s@)
            == old(out)@.map_values(|s: String| s@) + list@.map_values(|s: &'static str| s@),
{
    let ghost start = out@.map_values(|s: String| s@);
    for i in 0..list.len()
        invariant
            out@.map_values(|s: String| s@) == start + list@.subrange(0, i as int).map_values(|s: &'static str| s@),
    {
        let ghost prev = out@;
        out.push(String::from_str(list[i]));
        assert(out@.map_values(|s: String| s@) =~= prev.map_values(|s: String| s@).push(list@[i as int]@));
        assert(list@.subrange(0, i + 1).map_values(|s: &'static str| s@)
            =~= list@.subrange(0, i as int).map_values(|s: &'static str| s@).push(list@[i as int]@));
        assert(out@.map_values(|s: String| s@) =~= start + list@.subrange(0, i + 1).map_values(|s: &'static str| s@));
    }
    assert(list@.subrange(0, list.len() as int) =~= list@);
}

/// Every recognised extension, dot-prefixed and lower-case.
pub fn get_supported_extensions() -> (r: Vec<String>)
    ensures
        r@.map_values(|s: String| s@) == supported_extensions(),
{
    let mut r: Vec<String> = Vec::new();
    assert(r@.map_values(|s: String| s@) =~= Seq::<Seq<char>>::empty());
    push_strings(&mut r, &raw_extension_list());
    push_strings(&mut r, &heif_extension_list());
    push_strings(&mut r, &standard_extension_list());
    assert(Seq::<Seq<char>>::empty() + raw_extensions() =~= raw_extensions());
    r
}

/// Whether the lower-cased path ends with a high-efficiency extension.
pub fn is_heif_file(file_path: &str) -> (r: bool)
    ensures
        r == (ends_with(lower(file_path@), ".heic"@) || ends_with(lower(file_path@), ".heif"@)),
{
    let low = lower_all(&chars_of(file_path));
    ends_with_text(&low, ".heic") || ends_with_text(&low, ".heif")
}

/// Whether the file's displayable image has to come from an embedded preview
/// (RAW and high-efficiency files).
pub fn needs_preview_extraction(file_path: &str) -> (r: bool)
    ensures
        r == exists|j: int|
            0 <= j < preview_extensions().len() && #[trigger] ends_with(lower(file_path@), preview_extensions()[j]),
{
    let low = lower_all(&chars_of(file_path));
    let mut list = raw_extension_list();
    let mut heif = heif_extension_list();
    list.append(&mut heif);
    proof {
        assert(list@.map_values(|s: &'static str| s@) =~= preview_extensions());
        assert forall|j: int| 0 <= j < list@.len() implies list@[j]@ == preview_extensions()[j] by {
            assert(list@.map_values(|s: &'static str| s@)[j] == list@[j]@);
        }
    }
    let r = list_has_suffix_of(&list, &low);
    proof {
        if r {
            let j = choose|j: int| 0 <= j < list@.len() && #[trigger] ends_with(low@, list@[j]@);
            assert(ends_with(lower(file_path@), preview_extensions()[j]));
        } else {
            assert forall|j: int| 0 <= j < preview_extensions().len() implies !#[trigger] ends_with(
                lower(file_path@),
                preview_extensions()[j],
            ) by {
                assert(list@[j]@ == preview_extensions()[j]);
                assert(!ends_with(low@, list@[j]@));
            }
        }
    }
    r
}


/// Name of a RAW format: the upper-cased extension (`CR2`). Recognised RAW
/// extensions are ASCII, for which ASCII upper-casing is the full upper-casing.
pub open spec fn spec_raw_format(p: Seq<char>) -> Option<Seq<char>> {
    match path_extension(p) {
        Some(e) => Some(upper(e)),
        None => None,
    }
}

/// MIME-like type tag of a RAW file: `image/x-` and the lower-cased extension.
pub open spec fn spec_raw_mime_type(p: Seq<char>) -> Option<Seq<char>> {
    match path_extension(p) {
        Some(e) => Some("image/x-"@ + lower(e)),
        None => None,
    }
}

pub fn raw_format_of(file_path: &str) -> (r: Option<String>)
    ensures
        match r {
            Some(s) => spec_raw_format(file_path@) == Some(s@),
            None => spec_raw_format(file_path@) is None,
        },
{
    match extension_of(file_path) {
        None => None,
        Some(e) => Some(string_of(upper_all(&e).as_slice())),
    }
}

pub fn raw_mime_type(file_path: &str) -> (r: Option<String>)
    ensures
        match r {
            Some(s) => spec_raw_mime_type(file_path@) == Some(s@),
            None => spec_raw_mime_type(file_path@) is None,
        },
{
    match extension_of(file_path) {
        None => None,
        Some(e) => Some(string_of(prefixed("image/x-", &lower_all(&e)).as_slice())),
    }
}

/// What `str::to_uppercase` makes of a text.
pub uninterp spec fn uppercase_of(s: Seq<char>) -> Seq<char>;

/// Relies on `str::to_uppercase`: full Unicode upper-casing, which depends on
/// the characters alone.
#[verifier::external_body]
fn to_uppercase(s: &str) -> (r: String)
    ensures
        r@ == uppercase_of(s@),
{
    s.to_uppercase()
}

/// Format name for the MIME tag of a preview-extracted file: `None` for
/// high-efficiency files, otherwise the upper-cased text after the path's last
/// dot (the whole path when it has no dot).
pub fn get_raw_format(file_path: &str) -> (r: Option<String>)
    ensures
        (ends_with(lower(file_path@), ".heic"@) || ends_with(lower(file_path@), ".heif"@)) ==> r is None,
        !(ends_with(lower(file_path@), ".heic"@) || ends_with(lower(file_path@), ".heif"@)) ==> (r matches Some(f)
            && f@ == uppercase_of(file_path@.subrange(after_last(file_path@, '.') as int, file_path@.len() as int))),
{
    if is_heif_file(file_path) {
        return None;
    }
    let p = chars_of(file_path);
    let start = find_after_last(&p, '.');
    let n = file_path.unicode_len();
    Some(to_uppercase(file_path.substring_char(start, n)))
}

/// Directory entries whose name starts with a dot are hidden and skipped.
pub fn is_hidden_name(name: &str) -> (r: bool)
    ensures
        r == (name@.len() > 0 && name@[0] == '.'),
{
    name.unicode_len() > 0 && name.get_char(0) == '.'
}

/// Bytes that start like a JPEG stream (`FF D8`) and hold more than the marker.
pub fn is_jpeg_data(bytes: &[u8]) -> (r: bool)
    ensures
        r == (bytes@.len() > 2 && bytes@[0] == 0xFF && bytes@[1] == 0xD8),
{
    bytes.len() > 2 && bytes[0] == 0xFF && bytes[1] == 0xD8
}

/// Brands of the `ftyp` box that mark a high-efficiency image container, as
/// ASCII codes: heic, heix, hevc, hevx, heim, heis, hevm, hevs, mif1, msf1, avif.
pub open spec fn is_heif_brand(b: Seq<u8>) -> bool {
    ||| b == seq![104u8, 101, 105, 99]
    ||| b == seq![104u8, 101, 105, 120]
    ||| b == seq![104u8, 101, 118, 99]
    ||| b == seq![104u8, 101, 118, 120]
    ||| b == seq![104u8, 101, 105, 109]
    ||| b == seq![104u8, 101, 105, 115]
    ||| b == seq![104u8, 101, 118, 109]
    ||| b == seq![104u8, 101, 118, 115]
    ||| b == seq![109u8, 105, 102, 49]
    ||| b == seq![109u8, 115, 102, 49]
    ||| b == seq![97u8, 118, 105, 102]
}

/// A file starts like a high-efficiency image container: at least 12 bytes,
/// `ftyp` (102, 116, 121, 112) at offset 4, and a known brand at offset 8.
pub open spec fn spec_heif_signature(h: Seq<u8>) -> bool {
    &&& h.len() >= 12
    &&& h.subrange(4, 8) == seq![102u8, 116, 121, 112]
    &&& is_heif_brand(h.subrange(8, 12))
}

fn bytes_are(h: &[u8], at: usize, a: u8, b: u8, c: u8, d: u8) -> (r: bool)
    requires
        at + 4 <= h@.len(),
    ensures
        r == (h@.subrange(at as int, at + 4) == seq![a, b, c, d]),
{
    let r = h[at] == a && h[at + 1] == b && h[at + 2] == c && h[at + 3] == d;
    assert(r == (h@.subrange(at as int, at + 4) =~= seq![a, b, c, d])) by {
        if h@.subrange(at as int, at + 4) =~= seq![a, b, c, d] {
            assert(h@.subrange(at as int, at + 4)[0] == a);
            assert(h@.subrange(at as int, at + 4)[1] == b);
            assert(h@.subrange(at as int, at + 4)[2] == c);
            assert(h@.subrange(at as int, at + 4)[3] == d);
        }
    }
    r
}

/// Whether the first bytes of a file carry a high-efficiency container signature.
pub fn has_heif_signature(header: &[u8]) -> (r: bool)
    ensures
        r == spec_heif_signature(header@),
{
    if header.len() < 12 || !bytes_are(header, 4, 102, 116, 121, 112) {
        return false;
    }
    bytes_are(header, 8, 104, 101, 105, 99) || bytes_are(header, 8, 104, 101, 105, 120)
        || bytes_are(header, 8, 104, 101, 118, 99) || bytes_are(header, 8, 104, 101, 118, 120)
        || bytes_are(header, 8, 104, 101, 105, 109) || bytes_are(header, 8, 104, 101, 105, 115)
        || bytes_are(header, 8, 104, 101, 118, 109) || bytes_are(header, 8, 104, 101, 118, 115)
        || bytes_are(header, 8, 109, 105, 102, 49) || bytes_are(header, 8, 109, 115, 102, 49)
        || bytes_are(header, 8, 97, 118, 105, 102)
}

} // verus!
