use vstd::prelude::*;

verus! {

/// `c` equals the lower-case ASCII letter or symbol `lower`, ignoring ASCII case.
pub open spec fn char_eq_ci(c: char, lower: char) -> bool {
    c == lower || ('a' <= lower && lower <= 'z' && c as u32 + 32 == lower as u32)
}

/// `s` ends with `suffix`, comparing ASCII letters without regard to case
/// (`suffix` is written in lower case).
pub open spec fn ends_with_ci(s: Seq<char>, suffix: Seq<char>) -> bool {
    &&& suffix.len() <= s.len()
    &&& forall|i: int|
        0 <= i < suffix.len() ==> #[trigger] char_eq_ci(
            s[s.len() - suffix.len() + i],
            suffix[i],
        )
}

fn char_matches(c: char, lower: char) -> (r: bool)
    ensures
        r == char_eq_ci(c, lower),
{
    c == lower || ('a' <= lower && lower <= 'z' && (c as u32) + 32 == (lower as u32))
}

/// Whether `s` ends with the lower-case `suffix`, ignoring ASCII case.
pub fn ends_with_ignore_case(s: &str, suffix: &str) -> (r: bool)
    ensures
        r == ends_with_ci(s@, suffix@),
{
    let n = s.unicode_len();
    let m = suffix.unicode_len();
    if m > n {
        return false;
    }
    let off = n - m;
    let mut i: usize = 0;
    while i < m
        invariant
            n == s@.len(),
            m == suffix@.len(),
            off == n - m,
            i <= m,
            forall|j: int| 0 <= j < i ==> #[trigger] char_eq_ci(s@[off + j], suffix@[j]),
        decreases m - i,
    {
        if !char_matches(s.get_char(off + i), suffix.get_char(i)) {
            return false;
        }
        i = i + 1;
    }
    true
}


/// Whether `path` names a document that is collected for ingestion: its
/// extension is one of the supported document types.
pub fn is_supported_file(path: &str) -> (r: bool)
    ensures
        r == has_document_extension(path@),
{
    should_process(path)
}

/// The index of the last `c` in `s`, or -1 where `s` holds none.
pub open spec fn last_index_of(s: Seq<char>, c: char) -> int
    decreases s.len(),
{
    if s.len() == 0 {
        -1
    } else if s.last() == c {
        s.len() - 1
    } else {
        last_index_of(s.drop_last(), c)
    }
}

proof fn lemma_last_index_bounds(s: Seq<char>, c: char)
    ensures
        -1 <= last_index_of(s, c) < s.len(),
        last_index_of(s, c) >= 0 ==> s[last_index_of(s, c)] == c,
        forall|j: int| last_index_of(s, c) < j < s.len() ==> s[j] != c,
    decreases s.len(),
{
    if s.len() > 0 && s.last() != c {
        lemma_last_index_bounds(s.drop_last(), c);
        assert forall|j: int| last_index_of(s, c) < j < s.len() implies s[j] != c by {
            if j < s.len() - 1 {
                assert(s.drop_last()[j] == s[j]);
            }
        }
    }
}

fn last_index(s: &str, c: char) -> (r: Option<usize>)
    ensures
        match r {
            Some(i) => i as int == last_index_of(s@, c),
            None => last_index_of(s@, c) == -1,
        },
{
    let n = s.unicode_len();
    let mut i: usize = n;
    assert(s@.subrange(0, n as int) =~= s@);
    while i > 0
        invariant
            n == s@.len(),
            i <= n,
            last_index_of(s@, c) == last_index_of(s@.subrange(0, i as int), c),
        decreases i,
    {
        let ghost t = s@.subrange(0, i as int);
        assert(t.drop_last() =~= s@.subrange(0, i - 1));
        if s.get_char(i - 1) == c {
            return Some(i - 1);
        }
        i = i - 1;
    }
    assert(s@.subrange(0, 0).len() == 0);
    None
}

/// Whether a path ends in a separator or in a `.` segment, which do not
/// count as its last component.
pub open spec fn ends_in_empty_segment(p: Seq<char>) -> bool {
    p.len() > 0 && (p.last() == '/' || (p.last() == '.' && p.len() >= 2 && p[p.len() - 2] == '/'))
}

/// A path without its trailing separators and `.` segments.
pub open spec fn trim_trailing(p: Seq<char>) -> Seq<char>
    decreases p.len(),
{
    if ends_in_empty_segment(p) {
        trim_trailing(p.drop_last())
    } else {
        p
    }
}

/// The last component of a `/`-separated path, ignoring trailing separators
/// and `.` segments.
pub open spec fn file_name_of(p: Seq<char>) -> Seq<char> {
    let t = trim_trailing(p);
    t.subrange(last_index_of(t, '/') + 1, t.len() as int)
}

fn trimmed_len(path: &str) -> (r: usize)
    ensures
        r <= path@.len(),
        path@.subrange(0, r as int) == trim_trailing(path@),
{
    let mut n = path.unicode_len();
    assert(path@.subrange(0, n as int) =~= path@);
    while n > 0 && (path.get_char(n - 1) == '/' || (path.get_char(n - 1) == '.' && n >= 2
        && path.get_char(n - 2) == '/'))
        invariant
            n <= path@.len(),
            trim_trailing(path@) == trim_trailing(path@.subrange(0, n as int)),
        decreases n,
    {
        assert(path@.subrange(0, n as int).drop_last() =~= path@.subrange(0, n - 1));
        n = n - 1;
    }
    n
}

/// The extension of a path: what follows the last `.` of its file name, where
/// that dot is not the name's first character.
pub open spec fn extension_of(p: Seq<char>) -> Option<Seq<char>> {
    let name = file_name_of(p);
    let d = last_index_of(name, '.');
    if d > 0 {
        Some(name.subrange(d + 1, name.len() as int))
    } else {
        None
    }
}

/// `a` equals the lower-case `b`, ignoring ASCII case.
pub open spec fn eq_ci(a: Seq<char>, b: Seq<char>) -> bool {
    a.len() == b.len() && ends_with_ci(a, b)
}

/// Whether a path's extension is one of `txt`, `md`, `pdf`, `doc`, `docx`, in any ASCII case.
pub open spec fn has_document_extension(p: Seq<char>) -> bool {
    match extension_of(p) {
        Some(e) => eq_ci(e, "txt"@) || eq_ci(e, "md"@) || eq_ci(e, "pdf"@) || eq_ci(e, "doc"@)
            || eq_ci(e, "docx"@),
        None => false,
    }
}

fn equals_ignore_case(a: &str, b: &str) -> (r: bool)
    ensures
        r == eq_ci(a@, b@),
{
    a.unicode_len() == b.unicode_len() && ends_with_ignore_case(a, b)
}

/// Whether a path should be ingested: its extension names a document type.
/// This one rule selects files both when folders are scanned and when a
/// watcher reports a change.
pub fn should_process(path: &str) -> (r: bool)
    ensures
        r == has_document_extension(path@),
{
    let n = trimmed_len(path);
    let trimmed = path.substring_char(0, n);
    proof {
        lemma_last_index_bounds(trimmed@, '/');
    }
    let start = match last_index(trimmed, '/') {
        Some(i) => i + 1,
        None => 0,
    };
    let name = trimmed.substring_char(start, n);
    assert(name@ == file_name_of(path@));
    proof {
        lemma_last_index_bounds(name@, '.');
    }
    match last_index(name, '.') {
        Some(d) => {
            if d == 0 {
                return false;
            }
            let ext = name.substring_char(d + 1, name.unicode_len());
            equals_ignore_case(ext, "txt") || equals_ignore_case(ext, "md")
                || equals_ignore_case(ext, "pdf") || equals_ignore_case(ext, "doc")
                || equals_ignore_case(ext, "docx")
        },
        None => false,
    }
}

/// The content type sent with a file, chosen by its extension.
pub open spec fn content_type_of(p: Seq<char>) -> Seq<char> {
    if ends_with_ci(p, ".pdf"@) {
        "application/pdf"@
    } else if ends_with_ci(p, ".docx"@) {
        "application/vnd.openxmlformats-officedocument.wordprocessingml.document"@
    } else if ends_with_ci(p, ".txt"@) {
        "text/plain"@
    } else if ends_with_ci(p, ".md"@) {
        "text/markdown"@
    } else {
        "application/octet-stream"@
    }
}

/// The content type sent with the file at `path`.
pub fn content_type_for(path: &str) -> (r: &'static str)
    ensures
        r@ == content_type_of(path@),
{
    if ends_with_ignore_case(path, ".pdf") {
        "application/pdf"
    } else if ends_with_ignore_case(path, ".docx") {
        "application/vnd.openxmlformats-officedocument.wordprocessingml.document"
    } else if ends_with_ignore_case(path, ".txt") {
        "text/plain"
    } else if ends_with_ignore_case(path, ".md") {
        "text/markdown"
    } else {
        "application/octet-stream"
    }
}


/// What `str::to_lowercase` returns for a string.
pub uninterp spec fn lower_of(s: Seq<char>) -> Seq<char>;

/// Relies on `str::to_lowercase`: the result depends on the characters alone.
#[verifier::external_body]
fn lowercase(s: &str) -> (r: String)
    ensures
        r@ == lower_of(s@),
{
    s.to_lowercase()
}

/// `needle` occurs in `hay` as a contiguous run of characters.
pub open spec fn contains_seq(hay: Seq<char>, needle: Seq<char>) -> bool {
    exists|i: int|
        0 <= i && i + needle.len() <= hay.len() && #[trigger] hay.subrange(i, i + needle.len())
            == needle
}

/// Whether `needle` occurs in `hay`.
pub fn contains_str(hay: &str, needle: &str) -> (r: bool)
    ensures
        r == contains_seq(hay@, needle@),
{
    let n = hay.unicode_len();
    let m = needle.unicode_len();
    if m > n {
        return false;
    }
    let mut i: usize = 0;
    while i <= n - m
        invariant
            n == hay@.len(),
            m == needle@.len(),
            m <= n,
            i <= n - m + 1,
            forall|k: int| 0 <= k < i ==> #[trigger] hay@.subrange(k, k + m) != needle@,
        decreases n - m + 1 - i,
    {
        let mut j: usize = 0;
        while j < m && hay.get_char(i + j) == needle.get_char(j)
            invariant
                n == hay@.len(),
                m == needle@.len(),
                i + m <= n,
                j <= m,
                forall|l: int| 0 <= l < j ==> hay@[i + l] == needle@[l],
            decreases m - j,
        {
            j = j + 1;
        }
        if j == m {
            assert(hay@.subrange(i as int, i + m) =~= needle@);
            return true;
        }
        assert(hay@.subrange(i as int, i + m)[j as int] != needle@[j as int]);
        i = i + 1;
    }
    assert forall|k: int| 0 <= k && k + m <= n implies #[trigger] hay@.subrange(k, k + m)
        != needle@ by {
        assert(k < i);
    }
    false
}

/// The document kind guessed from a lower-cased file name and a lower-cased path.
pub open spec fn doc_type_of(name: Seq<char>, path: Seq<char>) -> Seq<char> {
    if contains_seq(path, "policy"@) || contains_seq(path, "policies"@) {
        "POLICY"@
    } else if contains_seq(path, "incident"@) {
        "INCIDENT"@
    } else if contains_seq(path, "architecture"@) || contains_seq(path, "design"@) {
        "ARCHITECTURE"@
    } else if contains_seq(name, "policy"@) {
        "POLICY"@
    } else if contains_seq(name, "incident"@) {
        "INCIDENT"@
    } else {
        "OTHER"@
    }
}

/// The document kind for a file name and path that are already lower case.
pub fn doc_type_of_lowered(name: &str, path: &str) -> (r: String)
    ensures
        r@ == doc_type_of(name@, path@),
{
    if contains_str(path, "policy") || contains_str(path, "policies") {
        String::from_str("POLICY")
    } else if contains_str(path, "incident") {
        String::from_str("INCIDENT")
    } else if contains_str(path, "architecture") || contains_str(path, "design") {
        String::from_str("ARCHITECTURE")
    } else if contains_str(name, "policy") {
        String::from_str("POLICY")
    } else if contains_str(name, "incident") {
        String::from_str("INCIDENT")
    } else {
        String::from_str("OTHER")
    }
}

/// A hint of the document's kind, from words in its path and file name in any case.
pub fn guess_doc_type(file_name: &str, path: &str) -> (r: String)
    ensures
        r@ == doc_type_of(lower_of(file_name@), lower_of(path@)),
{
    let name_lower = lowercase(file_name);
    let path_lower = lowercase(path);
    doc_type_of_lowered(name_lower.as_str(), path_lower.as_str())
}

} // verus!
