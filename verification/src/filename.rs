//! Choosing the OneDrive file name of a download: from the HTTP response of a URL,
//! or from a Telegram media.
use crate::decimal::{i64_to_dec, int_to_dec};
use crate::patterns::{regex_capture, regex_capture_result};
use crate::text::{
    append_chars, append_str, chars_eq, chars_of, contains_chars, contains_seq, copy_chars,
    has_prefix, lowercase_result, split_chars, split_on, str_eq, strip_prefix_all,
    strip_prefix_all_chars, string_from_chars, to_lowercase, trim, trim_char, trim_char_chars,
    trim_chars,
};
use vstd::prelude::*;

verus! {

// ---------------------------------------------------------------------------
// OneDrive's restrictions on names
// ---------------------------------------------------------------------------

/// The longest file path, in bytes, that OneDrive accepts.
pub const MAX_FILE_NAME_LEN: usize = 400;

/// A file name may not start with this.
pub const INVALID_NAME_PREFIX: &'static str = "~$";

/// The names that OneDrive refuses for a file.
pub open spec fn invalid_names() -> Seq<Seq<char>> {
    seq![
        ".lock"@, "CON"@, "PRN"@, "AUX"@, "NUL"@, "COM0"@, "COM1"@, "COM2"@, "COM3"@, "COM4"@,
        "COM5"@, "COM6"@, "COM7"@, "COM8"@, "COM9"@, "LPT0"@, "LPT1"@, "LPT2"@, "LPT3"@,
        "LPT4"@, "LPT5"@, "LPT6"@, "LPT7"@, "LPT8"@, "LPT9"@, "_vti_"@, "desktop.ini"@,
    ]
}

/// The strings that may not occur in a file name on OneDrive.
pub open spec fn invalid_components() -> Seq<Seq<char>> {
    seq!["\""@, "*"@, ":"@, "<"@, ">"@, "?"@, "/"@, "\\"@, "|"@]
}

fn invalid_name_list() -> (r: Vec<&'static str>)
    ensures
        r@.map_values(|t: &str| t@) == invalid_names(),
{
    let r = vec![
        ".lock",
        "CON",
        "PRN",
        "AUX",
        "NUL",
        "COM0",
        "COM1",
        "COM2",
        "COM3",
        "COM4",
        "COM5",
        "COM6",
        "COM7",
        "COM8",
        "COM9",
        "LPT0",
        "LPT1",
        "LPT2",
        "LPT3",
        "LPT4",
        "LPT5",
        "LPT6",
        "LPT7",
        "LPT8",
        "LPT9",
        "_vti_",
        "desktop.ini",
    ];
    assert(r@.map_values(|t: &str| t@) =~= invalid_names());
    r
}

fn invalid_component_list() -> (r: Vec<&'static str>)
    ensures
        r@.map_values(|t: &str| t@) == invalid_components(),
{
    let r = vec!["\"", "*", ":", "<", ">", "?", "/", "\\", "|"];
    assert(r@.map_values(|t: &str| t@) =~= invalid_components());
    r
}

/// A name that OneDrive accepts: not empty, not a reserved name, and free of the
/// forbidden characters.
pub open spec fn valid_filename(f: Seq<char>) -> bool {
    &&& f.len() > 0
    &&& !invalid_names().contains(f)
    &&& forall|i: int| 0 <= i < invalid_components().len() ==> !contains_seq(f, #[trigger] invalid_components()[i])
}

/// Whether OneDrive accepts `filename` as the name of a file.
pub fn validate_filename(filename: &str) -> (r: bool)
    ensures
        r == valid_filename(filename@),
{
    let f = chars_of(filename);
    if f.len() == 0 {
        return false;
    }
    let names = invalid_name_list();
    let mut i: usize = 0;
    while i < names.len()
        invariant
            i <= names.len(),
            names@.map_values(|t: &str| t@) == invalid_names(),
            f@ == filename@,
            forall|k: int| 0 <= k < i ==> #[trigger] invalid_names()[k] != f@,
        decreases names.len() - i,
    {
        assert(invalid_names()[i as int] == names@[i as int]@);
        if str_eq(names[i], filename) {
            assert(invalid_names().contains(f@)) by {
                assert(invalid_names()[i as int] == f@);
            }
            return false;
        }
        i = i + 1;
    }
    assert(!invalid_names().contains(f@)) by {
        if invalid_names().contains(f@) {
            let k = choose|k: int| 0 <= k < invalid_names().len() && invalid_names()[k] == f@;
            assert(invalid_names()[k] != f@);
        }
    }
    let comps = invalid_component_list();
    let mut j: usize = 0;
    while j < comps.len()
        invariant
            j <= comps.len(),
            comps@.map_values(|t: &str| t@) == invalid_components(),
            f@ == filename@,
            forall|k: int| 0 <= k < j ==> !contains_seq(f@, #[trigger] invalid_components()[k]),
        decreases comps.len() - j,
    {
        assert(invalid_components()[j as int] == comps@[j as int]@);
        let c = chars_of(comps[j]);
        if contains_chars(&f, &c) {
            return false;
        }
        j = j + 1;
    }
    true
}

/// Whether `root_path` can be the directory of uploads: it must start with `/`.
pub fn validate_root_path(root_path: &str) -> (r: Result<(), RootPathError>)
    ensures
        r is Ok <==> has_prefix(root_path@, seq!['/']),
{
    let v = chars_of(root_path);
    if v.len() > 0 && v[0] == '/' {
        assert(v@.take(1) =~= seq!['/']);
        Ok(())
    } else {
        if v.len() > 0 {
            assert(v@.take(1)[0] == v@[0]);
        }
        Err(RootPathError::NotAbsolute)
    }
}

/// Why a directory cannot be the directory of uploads.
#[derive(Clone, Copy, Debug, PartialEq, Eq, Structural)]
pub enum RootPathError {
    /// It does not start with `/`.
    NotAbsolute,
}

/// The text of each root path error.
pub open spec fn root_path_error_text(e: RootPathError) -> Seq<char> {
    match e {
        RootPathError::NotAbsolute => "directory path should start with /"@,
    }
}

impl RootPathError {
    /// The text that describes the error.
    pub fn message(&self) -> (r: &'static str)
        ensures
            r@ == root_path_error_text(*self),
    {
        match self {
            RootPathError::NotAbsolute => "directory path should start with /",
        }
    }
}

// ---------------------------------------------------------------------------
// Extensions
// ---------------------------------------------------------------------------

/// The extension of a file name: what follows its last `.`, or nothing when it has none.
pub open spec fn ext_of(name: Seq<char>) -> Seq<char> {
    if split_on(name, '.').len() > 1 {
        split_on(name, '.').last()
    } else {
        seq![]
    }
}

/// The extension of a file name: what follows its last `.`, or nothing when it has none.
pub fn get_ext(filename: &str) -> (r: String)
    ensures
        r@ == ext_of(filename@),
{
    let v = chars_of(filename);
    let parts = split_chars(&v, '.');
    proof {
        assert(parts@.map_values(|p: Vec<char>| p@).len() == parts@.len());
    }
    if parts.len() > 1 {
        let last = copy_chars(&parts[parts.len() - 1]);
        assert(last@ == parts@.map_values(|p: Vec<char>| p@).last());
        string_from_chars(last)
    } else {
        string_from_chars(Vec::new())
    }
}

// ---------------------------------------------------------------------------
// The name of a file downloaded from a URL
// ---------------------------------------------------------------------------

/// Why no file name can be chosen for a URL.
#[derive(Clone, Copy, Debug, PartialEq, Eq, Structural)]
pub enum FilenameError {
    /// The response status is not 200.
    FileNotFound,
    /// The `Content-Disposition` header holds a byte that is not visible ASCII.
    ContentDispositionNotVisible,
    /// The URL does not parse.
    UrlNotParsed,
    /// The `Content-Type` header holds a byte that is not visible ASCII.
    ContentTypeNotVisible,
}

/// The text of each filename error.
pub open spec fn filename_error_text(e: FilenameError) -> Seq<char> {
    match e {
        FilenameError::FileNotFound => "file from url not found"@,
        FilenameError::ContentDispositionNotVisible => "header Content-Disposition has invisible ASCII chars"@,
        FilenameError::UrlNotParsed => "failed to parse url"@,
        FilenameError::ContentTypeNotVisible => "header Content-Type has invisible ASCII chars"@,
    }
}

impl FilenameError {
    /// The text that describes the error.
    pub fn message(&self) -> (r: &'static str)
        ensures
            r@ == filename_error_text(*self),
    {
        match self {
            FilenameError::FileNotFound => "file from url not found",
            FilenameError::ContentDispositionNotVisible => "header Content-Disposition has invisible ASCII chars",
            FilenameError::UrlNotParsed => "failed to parse url",
            FilenameError::ContentTypeNotVisible => "header Content-Type has invisible ASCII chars",
        }
    }
}

/// A byte that an HTTP header value may hold to be read as text (`HeaderValue::to_str`).
pub open spec fn visible_ascii(b: u8) -> bool {
    (32 <= b && b < 127) || b == 9
}

/// `HeaderValue::to_str`: the text of a header value, if all its bytes are visible ASCII.
pub open spec fn header_str(bytes: Seq<u8>) -> Option<Seq<char>> {
    if forall|i: int| 0 <= i < bytes.len() ==> visible_ascii(#[trigger] bytes[i]) {
        Some(bytes.map_values(|b: u8| b as char))
    } else {
        None
    }
}

/// The text of a header value, if all its bytes are visible ASCII.
pub fn header_text(bytes: &Vec<u8>) -> (r: Option<Vec<char>>)
    ensures
        match r {
            Some(v) => header_str(bytes@) == Some(v@),
            None => header_str(bytes@) is None,
        },
{
    let mut out: Vec<char> = Vec::new();
    let mut i: usize = 0;
    while i < bytes.len()
        invariant
            i <= bytes.len(),
            forall|k: int| 0 <= k < i ==> visible_ascii(#[trigger] bytes@[k]),
            out@ == bytes@.take(i as int).map_values(|b: u8| b as char),
        decreases bytes.len() - i,
    {
        let b = bytes[i];
        if !((32 <= b && b < 127) || b == 9) {
            return None;
        }
        out.push(b as char);
        i = i + 1;
        assert(out@ =~= bytes@.take(i as int).map_values(|b: u8| b as char));
    }
    assert(bytes@.take(i as int) =~= bytes@);
    Some(out)
}

/// The pattern that finds the file name in a `Content-Disposition` header.
pub const CONTENT_DISPOSITION_PATTERN: &'static str = "filename=(.+)";

/// The pattern that finds the media type in a `Content-Type` header.
pub const MIME_PATTERN: &'static str = "([^;]+)";

/// The media type assumed when a response has no `Content-Type`.
pub const OCTET_STREAM: &'static str = "application/octet-stream";

/// The file name that a `Content-Disposition` header gives, if any.
pub open spec fn filename_from_cd_result(cd: Option<Seq<u8>>) -> Result<Option<Seq<char>>, FilenameError> {
    match cd {
        None => Ok(None),
        Some(bytes) => match header_str(bytes) {
            None => Err(FilenameError::ContentDispositionNotVisible),
            Some(text) => match regex_capture_result(CONTENT_DISPOSITION_PATTERN@, text, 1) {
                Some(Some(f)) => if f.len() > 0 {
                    Ok(Some(trim_char(trim_char(trim(f), '\''), '"')))
                } else {
                    Ok(None)
                },
                _ => Ok(None),
            },
        },
    }
}

/// Reads the file name out of a `Content-Disposition` header (given as its bytes), without
/// the quotes around it.
pub fn get_filename_from_cd(cd: &Option<Vec<u8>>) -> (r: Result<Option<String>, FilenameError>)
    ensures
        match r {
            Ok(Some(f)) => filename_from_cd_result(opt_bytes(*cd)) == Ok::<
                Option<Seq<char>>,
                FilenameError,
            >(Some(f@)),
            Ok(None) => filename_from_cd_result(opt_bytes(*cd)) == Ok::<
                Option<Seq<char>>,
                FilenameError,
            >(None),
            Err(e) => filename_from_cd_result(opt_bytes(*cd)) == Err::<
                Option<Seq<char>>,
                FilenameError,
            >(e),
        },
{
    match cd {
        None => Ok(None),
        Some(bytes) => match header_text(bytes) {
            None => Err(FilenameError::ContentDispositionNotVisible),
            Some(text) => {
                let text = string_from_chars(text);
                match regex_capture(CONTENT_DISPOSITION_PATTERN, text.as_str(), 1) {
                    Some(Some(f)) => {
                        let fv = chars_of(f.as_str());
                        if fv.len() > 0 {
                            let t = trim_chars(&fv);
                            let t = trim_char_chars(&t, '\'');
                            let t = trim_char_chars(&t, '"');
                            Ok(Some(string_from_chars(t)))
                        } else {
                            Ok(None)
                        }
                    },
                    _ => Ok(None),
                }
            },
        },
    }
}

/// The bytes of an optional header value.
pub open spec fn opt_bytes(v: Option<Vec<u8>>) -> Option<Seq<u8>> {
    match v {
        Some(b) => Some(b@),
        None => None,
    }
}

/// The query parameters that may name the file of a URL, by priority of nothing but
/// their position in the URL.
pub open spec fn filename_params() -> Seq<Seq<char>> {
    seq!["name"@, "filename"@, "file_name"@, "title"@, "file"@]
}

/// The first key, in the order of the query, that names the file.
pub open spec fn first_filename_key(pairs: Seq<(Seq<char>, Seq<char>)>) -> Option<Seq<char>>
    decreases pairs.len(),
{
    if pairs.len() == 0 {
        None
    } else if filename_params().contains(pairs[0].0) {
        Some(pairs[0].0)
    } else {
        first_filename_key(pairs.drop_first())
    }
}

/// The value of the last pair with key `key` (a later pair overrides an earlier one).
pub open spec fn last_value(pairs: Seq<(Seq<char>, Seq<char>)>, key: Seq<char>) -> Seq<char>
    decreases pairs.len(),
{
    if pairs.len() == 0 {
        seq![]
    } else if pairs.last().0 == key {
        pairs.last().1
    } else {
        last_value(pairs.drop_last(), key)
    }
}

/// The file name that a URL gives: the lower-cased value of a query parameter that names
/// the file, else the last segment of its path; `None` when that is empty.
pub open spec fn filename_from_url_result(url: Seq<char>) -> Result<Option<Seq<char>>, FilenameError> {
    match url_parts_result(url) {
        None => Err(FilenameError::UrlNotParsed),
        Some((pairs, segments)) => {
            let name = match first_filename_key(pairs) {
                Some(k) => lowercase_result(last_value(pairs, k)),
                None => match segments {
                    Some(s) => if s.len() > 0 {
                        s.last()
                    } else {
                        seq![]
                    },
                    None => seq![],
                },
            };
            if name.len() == 0 {
                Ok(None)
            } else {
                Ok(Some(name))
            }
        },
    }
}

fn is_filename_param(key: &Vec<char>) -> (r: bool)
    ensures
        r == filename_params().contains(key@),
{
    let params: Vec<&'static str> = vec!["name", "filename", "file_name", "title", "file"];
    assert(params@.map_values(|t: &str| t@) =~= filename_params());
    let mut i: usize = 0;
    while i < params.len()
        invariant
            i <= params.len(),
            params@.map_values(|t: &str| t@) == filename_params(),
            forall|k: int| 0 <= k < i ==> #[trigger] filename_params()[k] != key@,
        decreases params.len() - i,
    {
        assert(filename_params()[i as int] == params@[i as int]@);
        let p = chars_of(params[i]);
        if chars_eq(&p, key) {
            assert(filename_params()[i as int] == key@);
            return true;
        }
        i = i + 1;
    }
    assert(!filename_params().contains(key@)) by {
        if filename_params().contains(key@) {
            let k = choose|k: int| 0 <= k < filename_params().len() && filename_params()[k] == key@;
            assert(filename_params()[k] != key@);
        }
    }
    false
}

/// Reads the name of the file that a URL points to, out of its query or its path.
pub fn get_filename_from_url(url: &str) -> (r: Result<Option<String>, FilenameError>)
    ensures
        match r {
            Ok(Some(f)) => filename_from_url_result(url@) == Ok::<Option<Seq<char>>, FilenameError>(
                Some(f@),
            ),
            Ok(None) => filename_from_url_result(url@) == Ok::<Option<Seq<char>>, FilenameError>(
                None,
            ),
            Err(e) => filename_from_url_result(url@) == Err::<Option<Seq<char>>, FilenameError>(e),
        },
{
    let parts = url_parts(url);
    match parts {
        None => Err(FilenameError::UrlNotParsed),
        Some((pairs, segments)) => {
            let ghost pv = pairs_view(pairs@);
            // the first key, in query order, that names the file
            let mut key: Option<Vec<char>> = None;
            let mut i: usize = 0;
            assert(pv.skip(0) =~= pv);
            while i < pairs.len() && key.is_none()
                invariant
                    i <= pairs.len(),
                    pv == pairs_view(pairs@),
                    key is None ==> first_filename_key(pv) == first_filename_key(pv.skip(i as int)),
                    key matches Some(k) ==> first_filename_key(pv) == Some(k@),
                decreases pairs.len() - i,
            {
                assert(pv.skip(i as int)[0] == pv[i as int]);
                assert(pv[i as int] == (pairs@[i as int].0@, pairs@[i as int].1@));
                assert(pv.skip(i as int).drop_first() =~= pv.skip(i + 1));
                let k = chars_of(pairs[i].0.as_str());
                if is_filename_param(&k) {
                    key = Some(k);
                }
                i = i + 1;
            }
            proof {
                if key is None {
                    assert(pv.skip(i as int).len() == 0);
                }
            }
            let name: Vec<char> = match key {
                Some(k) => {
                    // the value of the last pair with that key
                    let mut value: Vec<char> = Vec::new();
                    let mut j: usize = pairs.len();
                    let mut found = false;
                    assert(pv.take(pairs.len() as int) =~= pv);
                    while j > 0 && !found
                        invariant
                            j <= pairs.len(),
                            pv == pairs_view(pairs@),
                            found ==> value@ == last_value(pv, k@),
                            !found ==> value@ == Seq::<char>::empty(),
                            !found ==> last_value(pv, k@) == last_value(pv.take(j as int), k@),
                        decreases j,
                    {
                        assert(pv.take(j as int).last() == pv[j - 1]);
                        assert(pv[j - 1] == (pairs@[j - 1].0@, pairs@[j - 1].1@));
                        assert(pv.take(j as int).drop_last() =~= pv.take(j - 1));
                        let kj = chars_of(pairs[j - 1].0.as_str());
                        if chars_eq(&kj, &k) {
                            value = chars_of(pairs[j - 1].1.as_str());
                            found = true;
                        }
                        j = j - 1;
                    }
                    proof {
                        if !found {
                            assert(pv.take(0) =~= Seq::<(Seq<char>, Seq<char>)>::empty());
                        }
                    }
                    let v = string_from_chars(value);
                    let lower = to_lowercase(v.as_str());
                    assert(first_filename_key(pv) == Some(k@));
                    assert(v@ == last_value(pv, k@));
                    chars_of(lower.as_str())
                },
                None => match segments {
                    Some(segs) => {
                        assert(first_filename_key(pv) is None);
                        assert(strings_view(segs@).len() == segs@.len());
                        if segs.len() > 0 {
                            assert(strings_view(segs@).last() == segs@[segs.len() - 1]@);
                            chars_of(segs[segs.len() - 1].as_str())
                        } else {
                            Vec::new()
                        }
                    },
                    None => Vec::new(),
                },
            };
            assert(url_parts_result(url@) == Some((pv, match segments {
                Some(s) => Some(strings_view(s@)),
                None => None,
            })));
            assert(name@ == match first_filename_key(pv) {
                Some(k) => lowercase_result(last_value(pv, k)),
                None => match url_parts_result(url@).unwrap().1 {
                    Some(s) => if s.len() > 0 {
                        s.last()
                    } else {
                        seq![]
                    },
                    None => seq![],
                },
            });
            if name.len() == 0 {
                Ok(None)
            } else {
                Ok(Some(string_from_chars(name)))
            }
        },
    }
}

/// The media type that a `Content-Type` value names: what precedes its first `;`, trimmed.
pub open spec fn mime_of(content_type: Seq<char>) -> Seq<char> {
    let t = trim(content_type);
    match regex_capture_result(MIME_PATTERN@, t, 1) {
        Some(Some(m)) => trim(m),
        _ => t,
    }
}

/// The file extensions known for a `Content-Type` value (none when its type is unknown).
pub open spec fn guessed_exts(content_type: Seq<char>) -> Seq<Seq<char>> {
    match mime_extensions_result(mime_of(content_type)) {
        Some(exts) => exts,
        None => seq![],
    }
}

/// The file extensions known for the media type of a `Content-Type` value.
pub fn guess_exts(content_type: &str) -> (r: Vec<String>)
    ensures
        r@.map_values(|s: String| s@) == guessed_exts(content_type@),
{
    let v = chars_of(content_type);
    let t = trim_chars(&v);
    let ts = string_from_chars(copy_chars(&t));
    let mime: Vec<char> = match regex_capture(MIME_PATTERN, ts.as_str(), 1) {
        Some(Some(m)) => {
            let mv = chars_of(m.as_str());
            trim_chars(&mv)
        },
        _ => t,
    };
    let mime = string_from_chars(mime);
    match mime_extensions(mime.as_str()) {
        Some(exts) => exts,
        None => Vec::new(),
    }
}

/// Whether `list` holds `s`.
pub fn contains_string(list: &Vec<String>, s: &Vec<char>) -> (r: bool)
    ensures
        r == list@.map_values(|t: String| t@).contains(s@),
{
    let ghost lv = list@.map_values(|t: String| t@);
    let mut i: usize = 0;
    while i < list.len()
        invariant
            i <= list.len(),
            lv == list@.map_values(|t: String| t@),
            forall|k: int| 0 <= k < i ==> #[trigger] lv[k] != s@,
        decreases list.len() - i,
    {
        let t = chars_of(list[i].as_str());
        assert(lv[i as int] == t@);
        if chars_eq(&t, s) {
            return true;
        }
        i = i + 1;
    }
    assert(!lv.contains(s@)) by {
        if lv.contains(s@) {
            let k = choose|k: int| 0 <= k < lv.len() && lv[k] == s@;
            assert(lv[k] != s@);
        }
    }
    false
}

/// The number of bytes of the UTF-8 encoding of `s`.
pub open spec fn utf8_len(s: Seq<char>) -> nat
    decreases s.len(),
{
    if s.len() == 0 {
        0
    } else {
        utf8_len(s.drop_last()) + char_utf8_len(s.last())
    }
}

/// The number of bytes of the UTF-8 encoding of `c`.
pub open spec fn char_utf8_len(c: char) -> nat {
    let u = c as u32;
    if u < 0x80 {
        1
    } else if u < 0x800 {
        2
    } else if u < 0x10000 {
        3
    } else {
        4
    }
}

/// Whether a file name and the directory it goes to together stay within `MAX_FILE_NAME_LEN`
/// bytes.
pub fn fits_name_limit(name: &Vec<char>, root: &Vec<char>) -> (r: bool)
    ensures
        r == (utf8_len(name@) + utf8_len(root@) <= MAX_FILE_NAME_LEN),
{
    let mut total: usize = 0;
    let mut i: usize = 0;
    while i < name.len()
        invariant
            i <= name.len(),
            total == utf8_len(name@.take(i as int)),
            total <= MAX_FILE_NAME_LEN,
        decreases name.len() - i,
    {
        assert(name@.take(i + 1).drop_last() =~= name@.take(i as int));
        let u = name[i] as u32;
        let w: usize = if u < 0x80 {
            1
        } else if u < 0x800 {
            2
        } else if u < 0x10000 {
            3
        } else {
            4
        };
        total = total + w;
        i = i + 1;
        if total > MAX_FILE_NAME_LEN {
            proof {
                lemma_utf8_len_prefix(name@, i as int);
            }
            return false;
        }
    }
    assert(name@.take(i as int) =~= name@);
    let mut j: usize = 0;
    while j < root.len()
        invariant
            j <= root.len(),
            total == utf8_len(name@) + utf8_len(root@.take(j as int)),
            total <= MAX_FILE_NAME_LEN,
        decreases root.len() - j,
    {
        assert(root@.take(j + 1).drop_last() =~= root@.take(j as int));
        let u = root[j] as u32;
        let w: usize = if u < 0x80 {
            1
        } else if u < 0x800 {
            2
        } else if u < 0x10000 {
            3
        } else {
            4
        };
        total = total + w;
        j = j + 1;
        if total > MAX_FILE_NAME_LEN {
            proof {
                lemma_utf8_len_prefix(root@, j as int);
            }
            return false;
        }
    }
    assert(root@.take(j as int) =~= root@);
    true
}

proof fn lemma_utf8_len_prefix(s: Seq<char>, i: int)
    requires
        0 <= i <= s.len(),
    ensures
        utf8_len(s.take(i)) <= utf8_len(s),
    decreases s.len() - i,
{
    if i < s.len() {
        lemma_utf8_len_prefix(s, i + 1);
        assert(s.take(i + 1).drop_last() =~= s.take(i));
    } else {
        assert(s.take(i) =~= s);
    }
}

/// The name a URL download gets before it is cleaned: the found name, with the extension
/// of the response's media type added when it lacks one, or the timestamp in its place
/// when there is no name or the path would be too long.
pub open spec fn chosen_url_name(
    name: Option<Seq<char>>,
    exts: Seq<Seq<char>>,
    content_type: Seq<char>,
    root: Seq<char>,
    timestamp: int,
) -> Seq<char> {
    let typed = exts.len() > 0 && content_type != OCTET_STREAM@;
    match name {
        None => if typed {
            int_to_dec(timestamp) + "."@ + exts[0]
        } else {
            int_to_dec(timestamp)
        },
        Some(f) => if typed {
            let origin_ext = ext_of(f);
            if utf8_len(f) + utf8_len(root) <= MAX_FILE_NAME_LEN {
                if !exts.contains(origin_ext) {
                    f + "."@ + exts[0]
                } else {
                    f
                }
            } else if exts.contains(origin_ext) {
                int_to_dec(timestamp) + "."@ + origin_ext
            } else {
                f + "."@ + exts[0]
            }
        } else if utf8_len(f) + utf8_len(root) > MAX_FILE_NAME_LEN {
            int_to_dec(timestamp)
        } else {
            f
        },
    }
}

/// A name that fits under the directory and already has one of the extensions of the
/// response's media type (any of them, not only the first) is kept as it is.
pub proof fn lemma_known_extension_kept(
    f: Seq<char>,
    exts: Seq<Seq<char>>,
    content_type: Seq<char>,
    root: Seq<char>,
    timestamp: int,
)
    requires
        utf8_len(f) + utf8_len(root) <= MAX_FILE_NAME_LEN,
        exts.contains(ext_of(f)),
    ensures
        chosen_url_name(Some(f), exts, content_type, root, timestamp) == f,
{
}

/// A name that fits under the directory is kept, or gets `.` and the first extension of
/// the media type added, and the latter only when the media type is known (not
/// `application/octet-stream`) and the name's own extension is none of the type's.
pub proof fn lemma_extension_added_only_when_unknown(
    f: Seq<char>,
    exts: Seq<Seq<char>>,
    content_type: Seq<char>,
    root: Seq<char>,
    timestamp: int,
)
    requires
        utf8_len(f) + utf8_len(root) <= MAX_FILE_NAME_LEN,
    ensures
        chosen_url_name(Some(f), exts, content_type, root, timestamp) == f || (chosen_url_name(
            Some(f),
            exts,
            content_type,
            root,
            timestamp,
        ) == f + "."@ + exts[0] && exts.len() > 0 && content_type != OCTET_STREAM@
            && !exts.contains(ext_of(f))),
        exts.len() > 0 && content_type != OCTET_STREAM@ && !exts.contains(ext_of(f))
            ==> chosen_url_name(Some(f), exts, content_type, root, timestamp) == f + "."@ + exts[0],
{
}

/// A name made valid for OneDrive: a valid name is trimmed and loses its `~$` prefixes;
/// an invalid one is replaced by the timestamp, keeping what followed its last `.`.
pub open spec fn preprocessed_url_name(f: Seq<char>, timestamp: int) -> Seq<char> {
    if valid_filename(f) {
        strip_prefix_all(trim(f), INVALID_NAME_PREFIX@)
    } else if split_on(f, '.').len() > 1 {
        int_to_dec(timestamp) + "."@ + split_on(f, '.').last()
    } else {
        int_to_dec(timestamp)
    }
}

/// Makes a file name from a URL valid for OneDrive (see `preprocessed_url_name`).
pub fn preprocess_url_file_name(filename: &str, timestamp: i64) -> (r: String)
    ensures
        r@ == preprocessed_url_name(filename@, timestamp as int),
{
    let f = chars_of(filename);
    if validate_filename(filename) {
        let t = trim_chars(&f);
        let p = chars_of(INVALID_NAME_PREFIX);
        string_from_chars(strip_prefix_all_chars(&t, &p))
    } else {
        let sp = split_chars(&f, '.');
        assert(sp@.map_values(|p: Vec<char>| p@).len() == sp@.len());
        let mut v = i64_to_dec(timestamp);
        if sp.len() > 1 {
            append_str(&mut v, ".");
            assert(sp@[sp.len() - 1]@ == sp@.map_values(|p: Vec<char>| p@).last());
            append_chars(&mut v, &sp[sp.len() - 1]);
        }
        string_from_chars(v)
    }
}

/// The name a file downloaded from `url` gets on OneDrive, or why there is none.
pub open spec fn url_filename_result(
    url: Seq<char>,
    status_ok: bool,
    content_disposition: Option<Seq<u8>>,
    content_type: Option<Seq<u8>>,
    root: Seq<char>,
    timestamp: int,
) -> Result<Seq<char>, FilenameError> {
    if !status_ok {
        Err(FilenameError::FileNotFound)
    } else {
        match filename_from_cd_result(content_disposition) {
            Err(e) => Err(e),
            Ok(from_cd) => {
                let found = match from_cd {
                    Some(f) => Ok(Some(f)),
                    None => filename_from_url_result(url),
                };
                match found {
                    Err(e) => Err(e),
                    Ok(name) => {
                        let ctype = match content_type {
                            None => Some(OCTET_STREAM@),
                            Some(b) => header_str(b),
                        };
                        match ctype {
                            None => Err(FilenameError::ContentTypeNotVisible),
                            Some(ct) => {
                                let chosen = chosen_url_name(
                                    name,
                                    guessed_exts(ct),
                                    ct,
                                    root,
                                    timestamp,
                                );
                                Ok(percent_decode_result(preprocessed_url_name(chosen, timestamp)))
                            },
                        }
                    },
                }
            },
        }
    }
}

fn typed_name(f: &Vec<char>, ext: &String) -> (r: Vec<char>)
    ensures
        r@ == f@ + "."@ + ext@,
{
    let mut v = copy_chars(f);
    append_str(&mut v, ".");
    append_str(&mut v, ext.as_str());
    v
}

fn timestamp_name(timestamp: i64, ext: Option<&Vec<char>>) -> (r: Vec<char>)
    ensures
        match ext {
            Some(e) => r@ == int_to_dec(timestamp as int) + "."@ + e@,
            None => r@ == int_to_dec(timestamp as int),
        },
{
    let mut v = i64_to_dec(timestamp);
    match ext {
        Some(e) => {
            append_str(&mut v, ".");
            append_chars(&mut v, e);
        },
        None => {},
    }
    v
}

/// Chooses the OneDrive file name for a download from `url`, given what the response to
/// its `HEAD` request holds: whether its status is 200, its `Content-Disposition` and
/// `Content-Type` headers (as bytes), the upload directory and the current timestamp.
pub fn get_filename(
    url: &str,
    status_ok: bool,
    content_disposition: &Option<Vec<u8>>,
    content_type: &Option<Vec<u8>>,
    od_root_path: &str,
    timestamp: i64,
) -> (r: Result<String, FilenameError>)
    ensures
        match r {
            Ok(f) => url_filename_result(
                url@,
                status_ok,
                opt_bytes(*content_disposition),
                opt_bytes(*content_type),
                od_root_path@,
                timestamp as int,
            ) == Ok::<Seq<char>, FilenameError>(f@),
            Err(e) => url_filename_result(
                url@,
                status_ok,
                opt_bytes(*content_disposition),
                opt_bytes(*content_type),
                od_root_path@,
                timestamp as int,
            ) == Err::<Seq<char>, FilenameError>(e),
        },
{
    if !status_ok {
        return Err(FilenameError::FileNotFound);
    }
    let name: Option<String> = match get_filename_from_cd(content_disposition) {
        Err(e) => {
            return Err(e);
        },
        Ok(Some(f)) => Some(f),
        Ok(None) => match get_filename_from_url(url) {
            Err(e) => {
                return Err(e);
            },
            Ok(n) => n,
        },
    };
    let ct: Vec<char> = match content_type {
        None => chars_of(OCTET_STREAM),
        Some(b) => match header_text(b) {
            None => {
                return Err(FilenameError::ContentTypeNotVisible);
            },
            Some(t) => t,
        },
    };
    let cts = string_from_chars(copy_chars(&ct));
    let exts = guess_exts(cts.as_str());
    let ghost ev = exts@.map_values(|s: String| s@);
    let octet = chars_of(OCTET_STREAM);
    let typed = exts.len() > 0 && !chars_eq(&ct, &octet);
    let root = chars_of(od_root_path);
    let chosen: Vec<char> = match name {
        None => {
            if typed {
                let e0 = chars_of(exts[0].as_str());
                assert(e0@ == ev[0]);
                timestamp_name(timestamp, Some(&e0))
            } else {
                timestamp_name(timestamp, None)
            }
        },
        Some(f) => {
            let fv = chars_of(f.as_str());
            if typed {
                assert(exts@[0]@ == ev[0]);
                let origin = get_ext(f.as_str());
                let ov = chars_of(origin.as_str());
                let known = contains_string(&exts, &ov);
                if fits_name_limit(&fv, &root) {
                    if !known {
                        typed_name(&fv, &exts[0])
                    } else {
                        fv
                    }
                } else if known {
                    timestamp_name(timestamp, Some(&ov))
                } else {
                    typed_name(&fv, &exts[0])
                }
            } else if !fits_name_limit(&fv, &root) {
                timestamp_name(timestamp, None)
            } else {
                fv
            }
        },
    };
    let chosen = string_from_chars(chosen);
    let cleaned = preprocess_url_file_name(chosen.as_str(), timestamp);
    Ok(percent_decode_lossy(cleaned.as_str()))
}

// ---------------------------------------------------------------------------
// The name of a file sent on Telegram
// ---------------------------------------------------------------------------

/// What the logic reads of a Telegram document (or of the document of a sticker).
pub struct TgDocument {
    pub name: String,
    pub id: i64,
    pub mime_type: Option<String>,
    pub size: i64,
}

/// What the logic reads of the media of a Telegram message.
pub enum TgMedia {
    Photo { id: i64, size: i64 },
    Document(TgDocument),
    Sticker(TgDocument),
    /// Any other kind of media (a contact, a poll, a web page, ...).
    Other,
}

/// The name of a document: its own name, or, when that is empty and its media type is
/// known, its id with the first extension of that type.
pub open spec fn document_name(doc: TgDocument) -> Seq<char> {
    if doc.name@.len() == 0 {
        match doc.mime_type {
            Some(m) => {
                let exts = guessed_exts(m@);
                if exts.len() == 0 {
                    int_to_dec(doc.id as int)
                } else {
                    int_to_dec(doc.id as int) + "."@ + exts[0]
                }
            },
            None => doc.name@,
        }
    } else {
        doc.name@
    }
}

/// The name of a document, with its id.
pub fn get_tg_document_name_and_id(document: &TgDocument) -> (r: (String, i64))
    ensures
        r.0@ == document_name(*document),
        r.1 == document.id,
{
    let name = chars_of(document.name.as_str());
    let file_id = document.id;
    if name.len() == 0 {
        match &document.mime_type {
            Some(mime) => {
                let exts = guess_exts(mime.as_str());
                let ghost ev = exts@.map_values(|s: String| s@);
                let mut v = i64_to_dec(file_id);
                if exts.len() > 0 {
                    assert(exts@[0]@ == ev[0]);
                    append_str(&mut v, ".");
                    append_str(&mut v, exts[0].as_str());
                }
                return (string_from_chars(v), file_id);
            },
            None => {},
        }
    }
    (string_from_chars(name), file_id)
}

/// The name and the id that a media is known by (empty and 0 for other media).
pub open spec fn media_name_and_id(media: TgMedia) -> (Seq<char>, int) {
    match media {
        TgMedia::Photo { id, .. } => (int_to_dec(id as int) + ".jpg"@, id as int),
        TgMedia::Document(doc) => (document_name(doc), doc.id as int),
        TgMedia::Sticker(doc) => (document_name(doc), doc.id as int),
        TgMedia::Other => (seq![], 0),
    }
}

/// The OneDrive name of the file of a Telegram media: `<id>.jpg` for a photo; otherwise
/// its name made valid for OneDrive, or, when it is not, the id with the name's extension.
pub open spec fn tg_file_name(media: TgMedia) -> Seq<char> {
    match media {
        TgMedia::Photo { id, .. } => int_to_dec(id as int) + ".jpg"@,
        _ => {
            let (name, id) = media_name_and_id(media);
            if valid_filename(name) {
                strip_prefix_all(trim(name), INVALID_NAME_PREFIX@)
            } else {
                int_to_dec(id) + "."@ + ext_of(name)
            }
        },
    }
}

/// The OneDrive name of the file of a Telegram media (see `tg_file_name`).
pub fn preprocess_tg_file_name(media: &TgMedia) -> (r: String)
    ensures
        r@ == tg_file_name(*media),
{
    let (filename, id) = match media {
        TgMedia::Photo { id, .. } => {
            let mut v = i64_to_dec(*id);
            append_str(&mut v, ".jpg");
            return string_from_chars(v);
        },
        TgMedia::Document(doc) => get_tg_document_name_and_id(doc),
        TgMedia::Sticker(doc) => get_tg_document_name_and_id(doc),
        TgMedia::Other => (string_from_chars(Vec::new()), 0i64),
    };
    if validate_filename(filename.as_str()) {
        let f = chars_of(filename.as_str());
        let t = trim_chars(&f);
        let p = chars_of(INVALID_NAME_PREFIX);
        string_from_chars(strip_prefix_all_chars(&t, &p))
    } else {
        let ext = get_ext(filename.as_str());
        let mut v = i64_to_dec(id);
        append_str(&mut v, ".");
        append_str(&mut v, ext.as_str());
        string_from_chars(v)
    }
}

/// The size of the file of a media, as an unsigned number (0 for other media).
pub open spec fn media_size(media: TgMedia) -> u64 {
    match media {
        TgMedia::Photo { size, .. } => size as u64,
        TgMedia::Document(doc) => doc.size as u64,
        TgMedia::Sticker(doc) => doc.size as u64,
        TgMedia::Other => 0,
    }
}

/// The size of the file of a media (0 for other media).
pub fn get_tg_file_size(media: &TgMedia) -> (r: u64)
    ensures
        r == media_size(*media),
{
    let size: i64 = match media {
        TgMedia::Photo { size, .. } => *size,
        TgMedia::Document(doc) => doc.size,
        TgMedia::Sticker(doc) => doc.size,
        TgMedia::Other => 0,
    };
    size as u64
}

// ---------------------------------------------------------------------------
// Outside calls: `url`, `mime_guess`, `percent_encoding`
// ---------------------------------------------------------------------------

/// The query pairs (decoded) and the path segments of a URL, as `url::Url` gives them:
/// `None` when the URL does not parse; the segments are `None` for a URL that cannot be a base.
pub uninterp spec fn url_parts_result(url: Seq<char>) -> Option<
    (Seq<(Seq<char>, Seq<char>)>, Option<Seq<Seq<char>>>),
>;

/// The extensions that `mime_guess::get_mime_extensions_str` gives for a media type.
pub uninterp spec fn mime_extensions_result(mime: Seq<char>) -> Option<Seq<Seq<char>>>;

/// What `percent_decode_str(s).decode_utf8_lossy()` gives for `s`.
pub uninterp spec fn percent_decode_result(s: Seq<char>) -> Seq<char>;

/// The views of a sequence of string pairs.
pub open spec fn pairs_view(v: Seq<(String, String)>) -> Seq<(Seq<char>, Seq<char>)> {
    v.map_values(|p: (String, String)| (p.0@, p.1@))
}

/// The views of a sequence of strings.
pub open spec fn strings_view(v: Seq<String>) -> Seq<Seq<char>> {
    v.map_values(|s: String| s@)
}

/// Calls `url::Url::parse(url)`, then `Url::query_pairs` and `Url::path_segments`.
/// Trusted: the result, taken as plain values, is `url_parts_result` of the URL; how the URL
/// is parsed and decoded is not stated here.
#[verifier::external_body]
fn url_parts(url: &str) -> (r: Option<(Vec<(String, String)>, Option<Vec<String>>)>)
    ensures
        match r {
            Some((pairs, segments)) => url_parts_result(url@) == Some(
                (
                    pairs_view(pairs@),
                    match segments {
                        Some(s) => Some(strings_view(s@)),
                        None => None,
                    },
                ),
            ),
            None => url_parts_result(url@) is None,
        },
{
    let parsed = url::Url::parse(url).ok()?;
    let pairs = parsed.query_pairs().map(|(k, v)| (k.into_owned(), v.into_owned())).collect();
    let segments = parsed.path_segments().map(|s| s.map(|x| x.to_string()).collect());
    Some((pairs, segments))
}

/// Calls `mime_guess::get_mime_extensions_str(mime)`. Trusted: the result, as plain values,
/// is `mime_extensions_result` of the media type; the table of types is not stated here.
#[verifier::external_body]
fn mime_extensions(mime: &str) -> (r: Option<Vec<String>>)
    ensures
        match r {
            Some(v) => mime_extensions_result(mime@) == Some(strings_view(v@)),
            None => mime_extensions_result(mime@) is None,
        },
{
    mime_guess::get_mime_extensions_str(mime).map(|exts| exts.iter().map(|e| e.to_string()).collect())
}

/// Calls `percent_encoding::percent_decode_str(s).decode_utf8_lossy()`. Trusted: the result
/// is `percent_decode_result` of `s`; how bytes are decoded is not stated here.
#[verifier::external_body]
pub(crate) fn percent_decode_lossy(s: &str) -> (r: String)
    ensures
        r@ == percent_decode_result(s@),
{
    percent_encoding::percent_decode_str(s).decode_utf8_lossy().into_owned()
}

} // verus!
