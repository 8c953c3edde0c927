use vstd::prelude::*;

verus! {

// ---------------------------------------------------------------------------
// Audio-format filtering
//
// A path is worth uploading when its file name carries one of the supported
// extensions, compared without regard to ASCII case.  The file name is the
// part after the last slash; its extension is the part after its last dot,
// unless that dot opens the name.
// ---------------------------------------------------------------------------

/// The last position of `c` in `s`.
pub open spec fn rfind_char(s: Seq<char>, c: char) -> Option<int>
    decreases s.len(),
{
    if s.len() == 0 {
        None
    } else if s.last() == c {
        Some(s.len() - 1)
    } else {
        rfind_char(s.drop_last(), c)
    }
}

/// The file-name part of a path: everything after the last slash.
pub open spec fn file_name_of(path: Seq<char>) -> Seq<char> {
    match rfind_char(path, '/') {
        Some(i) => path.subrange(i + 1, path.len() as int),
        None => path,
    }
}

/// The extension of a file name: what follows its last dot, unless that dot
/// is the name's first character.
pub open spec fn extension_of(path: Seq<char>) -> Option<Seq<char>> {
    let name = file_name_of(path);
    match rfind_char(name, '.') {
        None => None,
        Some(i) => if i == 0 {
            None
        } else {
            Some(name.subrange(i + 1, name.len() as int))
        },
    }
}

/// ASCII upper-case letters folded onto their lower-case codes.
pub open spec fn ascii_lower_u(c: char) -> u32 {
    if 65 <= c as u32 <= 90 {
        (c as u32 + 32) as u32
    } else {
        c as u32
    }
}

/// Character-wise ASCII-case-insensitive equality.
pub open spec fn eq_ignore_ascii_case(a: Seq<char>, b: Seq<char>) -> bool {
    a.len() == b.len() && (forall|i: int|
        0 <= i < a.len() ==> ascii_lower_u(#[trigger] a[i]) == ascii_lower_u(b[i]))
}

/// Whether the path names a file in a format the service accepts.
pub open spec fn spec_is_supported_audio_format(path: Seq<char>) -> bool {
    match extension_of(path) {
        None => false,
        Some(e) => eq_ignore_ascii_case(e, "mp3"@) || eq_ignore_ascii_case(e, "wav"@)
            || eq_ignore_ascii_case(e, "m4a"@) || eq_ignore_ascii_case(e, "ogg"@)
            || eq_ignore_ascii_case(e, "flac"@) || eq_ignore_ascii_case(e, "mkv"@)
            || eq_ignore_ascii_case(e, "mp4"@),
    }
}

proof fn lemma_rfind_char_at(s: Seq<char>, c: char, p: int)
    requires
        0 <= p < s.len(),
        s[p] == c,
        forall|m: int| p < m < s.len() ==> s[m] != c,
    ensures
        rfind_char(s, c) == Some(p),
    decreases s.len(),
{
    if p < s.len() - 1 {
        assert(s.drop_last()[p] == c);
        lemma_rfind_char_at(s.drop_last(), c, p);
    }
}

proof fn lemma_rfind_char_none(s: Seq<char>, c: char)
    requires
        forall|m: int| 0 <= m < s.len() ==> s[m] != c,
    ensures
        rfind_char(s, c) is None,
    decreases s.len(),
{
    if s.len() > 0 {
        lemma_rfind_char_none(s.drop_last(), c);
    }
}

/// The last position of `c` at or after `from`, scanning backward.
fn rfind_from(s: &str, from: usize, c: char) -> (r: Option<usize>)
    requires
        from <= s@.len(),
    ensures
        r matches Some(p) ==> from <= p < s@.len() && s@[p as int] == c && (forall|m: int|
            p < m < s@.len() ==> s@[m] != c),
        r is None ==> forall|m: int| from <= m < s@.len() ==> s@[m] != c,
{
    let n = s.unicode_len();
    let mut i: usize = n;
    while i > from
        invariant
            from <= i <= n,
            n == s@.len(),
            forall|m: int| i <= m < n ==> s@[m] != c,
        decreases i,
    {
        i = i - 1;
        if s.get_char(i) == c {
            return Some(i);
        }
    }
    None
}

/// Compare the tail of `s` from `from` against `lit`, ignoring ASCII case.
fn tail_eq_ignore_case(s: &str, from: usize, lit: &str) -> (r: bool)
    requires
        from <= s@.len(),
    ensures
        r == eq_ignore_ascii_case(s@.subrange(from as int, s@.len() as int), lit@),
{
    let n = s.unicode_len();
    let ln = lit.unicode_len();
    let ghost tail = s@.subrange(from as int, s@.len() as int);
    if n - from != ln {
        return false;
    }
    let mut i: usize = 0;
    while i < ln
        invariant
            0 <= i <= ln,
            n == s@.len(),
            ln == lit@.len(),
            n - from == ln,
            tail == s@.subrange(from as int, s@.len() as int),
            forall|m: int| 0 <= m < i ==> ascii_lower_u(#[trigger] tail[m]) == ascii_lower_u(
                lit@[m],
            ),
        decreases ln - i,
    {
        let a = s.get_char(from + i);
        let b = lit.get_char(i);
        let au = a as u32;
        let bu = b as u32;
        let al = if 65 <= au && au <= 90 {
            au + 32
        } else {
            au
        };
        let bl = if 65 <= bu && bu <= 90 {
            bu + 32
        } else {
            bu
        };
        if al != bl {
            assert(tail[i as int] == s@[from + i]);
            return false;
        }
        assert(tail[i as int] == s@[from + i]);
        i = i + 1;
    }
    true
}

/// Whether the path names a file in a format the service accepts: one of
/// mp3, wav, m4a, ogg, flac, mkv, mp4, in any ASCII case.
pub fn is_supported_audio_format(path: &str) -> (r: bool)
    ensures
        r == spec_is_supported_audio_format(path@),
{
    let n = path.unicode_len();
    let start: usize = match rfind_from(path, 0, '/') {
        Some(i) => {
            proof {
                lemma_rfind_char_at(path@, '/', i as int);
            }
            i + 1
        },
        None => {
            proof {
                lemma_rfind_char_none(path@, '/');
            }
            0
        },
    };
    let ghost name = file_name_of(path@);
    assert(name =~= path@.subrange(start as int, n as int));
    assert(forall|m: int| 0 <= m < name.len() ==> name[m] == path@[m + start]);

    let dot = match rfind_from(path, start, '.') {
        Some(i) => i,
        None => {
            proof {
                assert(forall|m: int| 0 <= m < name.len() ==> name[m] != '.');
                lemma_rfind_char_none(name, '.');
            }
            return false;
        },
    };
    proof {
        assert(name[dot - start] == '.');
        assert(forall|m: int| dot - start < m < name.len() ==> name[m] != '.');
        lemma_rfind_char_at(name, '.', dot - start);
    }
    if dot == start {
        return false;
    }
    let ghost ext = extension_of(path@)->Some_0;
    assert(ext =~= path@.subrange(dot + 1, n as int));

    tail_eq_ignore_case(path, dot + 1, "mp3") || tail_eq_ignore_case(path, dot + 1, "wav")
        || tail_eq_ignore_case(path, dot + 1, "m4a") || tail_eq_ignore_case(path, dot + 1, "ogg")
        || tail_eq_ignore_case(path, dot + 1, "flac") || tail_eq_ignore_case(path, dot + 1, "mkv")
        || tail_eq_ignore_case(path, dot + 1, "mp4")
}

} // verus!
