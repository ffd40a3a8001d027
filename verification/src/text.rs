use vstd::prelude::*;

verus! {

/// Unicode `White_Space`, which is what `char::is_whitespace` and
/// `str::trim` go by.
pub open spec fn is_ws(c: char) -> bool {
    ||| ('\u{9}' <= c && c <= '\u{d}')
    ||| c == ' '
    ||| c == '\u{85}'
    ||| c == '\u{a0}'
    ||| c == '\u{1680}'
    ||| ('\u{2000}' <= c && c <= '\u{200a}')
    ||| c == '\u{2028}'
    ||| c == '\u{2029}'
    ||| c == '\u{202f}'
    ||| c == '\u{205f}'
    ||| c == '\u{3000}'
}

pub fn is_whitespace(c: char) -> (b: bool)
    ensures
        b == is_ws(c),
{
    ('\u{9}' <= c && c <= '\u{d}') || c == ' ' || c == '\u{85}' || c == '\u{a0}' || c == '\u{1680}'
        || ('\u{2000}' <= c && c <= '\u{200a}') || c == '\u{2028}' || c == '\u{2029}'
        || c == '\u{202f}' || c == '\u{205f}' || c == '\u{3000}'
}

/// `i` is where the text starts once leading whitespace is dropped.
pub open spec fn is_trim_start(s: Seq<char>, i: int) -> bool {
    &&& 0 <= i < s.len()
    &&& !is_ws(s[i])
    &&& forall|k: int| 0 <= k < i ==> is_ws(s[k])
}

/// `j` is the last character kept once trailing whitespace is dropped.
pub open spec fn is_trim_end(s: Seq<char>, j: int) -> bool {
    &&& 0 <= j < s.len()
    &&& !is_ws(s[j])
    &&& forall|k: int| j < k < s.len() ==> is_ws(s[k])
}

/// `s` without leading and trailing whitespace.
pub open spec fn trim(s: Seq<char>) -> Seq<char> {
    if exists|i: int| is_trim_start(s, i) {
        let i = choose|i: int| is_trim_start(s, i);
        let j = choose|j: int| is_trim_end(s, j);
        s.subrange(i, j + 1)
    } else {
        Seq::empty()
    }
}

pub proof fn lemma_trim(s: Seq<char>, i: int, j: int)
    requires
        is_trim_start(s, i),
        is_trim_end(s, j),
    ensures
        trim(s) == s.subrange(i, j + 1),
        i <= j,
{
    let a = choose|a: int| is_trim_start(s, a);
    assert(is_trim_start(s, a));
    if a < i {
        assert(is_ws(s[a]));
    } else if a > i {
        assert(is_ws(s[i]));
    }
    assert(exists|b: int| is_trim_end(s, b));
    let b = choose|b: int| is_trim_end(s, b);
    assert(is_trim_end(s, b));
    if b < j {
        assert(is_ws(s[j]));
    } else if b > j {
        assert(is_ws(s[b]));
    }
    if j < i {
        assert(is_ws(s[j]));
    }
}

/// `s` with leading and trailing whitespace removed, as `str::trim` does.
pub fn trim_str(s: &str) -> (t: String)
    ensures
        t@ == trim(s@),
{
    let n = s.unicode_len();
    let mut i: usize = 0;
    while i < n
        invariant
            n == s@.len(),
            i <= n,
            forall|k: int| 0 <= k < i ==> is_ws(s@[k]),
        ensures
            i <= n,
            forall|k: int| 0 <= k < i ==> is_ws(s@[k]),
            i < n ==> !is_ws(s@[i as int]),
        decreases n - i,
    {
        if !is_whitespace(s.get_char(i)) {
            break;
        }
        i = i + 1;
    }
    if i == n {
        proof {
            assert(!exists|a: int| is_trim_start(s@, a));
        }
        return String::new();
    }
    assert(is_trim_start(s@, i as int));
    let mut j: usize = n - 1;
    while j > i
        invariant
            n == s@.len(),
            i <= j < n,
            is_trim_start(s@, i as int),
            forall|k: int| j < k < n ==> is_ws(s@[k]),
        ensures
            i <= j < n,
            forall|k: int| j < k < n ==> is_ws(s@[k]),
            j > i ==> !is_ws(s@[j as int]),
        decreases j,
    {
        if !is_whitespace(s.get_char(j)) {
            break;
        }
        j = j - 1;
    }
    assert(is_trim_end(s@, j as int));
    proof {
        lemma_trim(s@, i as int, j as int);
    }
    let kept = s.substring_char(i, j + 1);
    String::from_str(kept)
}

pub open spec fn ascii_upper(c: char) -> char {
    if 'a' <= c && c <= 'z' {
        ((c as u32) - 32) as char
    } else {
        c
    }
}

/// `char::to_ascii_uppercase`.
pub fn to_ascii_upper(c: char) -> (u: char)
    ensures
        u == ascii_upper(c),
{
    if 'a' <= c && c <= 'z' {
        let v: u32 = (c as u32) - 32;
        char_from_u32_ascii(v)
    } else {
        c
    }
}

fn char_from_u32_ascii(v: u32) -> (c: char)
    requires
        65 <= v <= 90,
    ensures
        c == v as char,
{
    if v == 65 { 'A' } else if v == 66 { 'B' } else if v == 67 { 'C' } else if v == 68 { 'D' }
    else if v == 69 { 'E' } else if v == 70 { 'F' } else if v == 71 { 'G' } else if v == 72 { 'H' }
    else if v == 73 { 'I' } else if v == 74 { 'J' } else if v == 75 { 'K' } else if v == 76 { 'L' }
    else if v == 77 { 'M' } else if v == 78 { 'N' } else if v == 79 { 'O' } else if v == 80 { 'P' }
    else if v == 81 { 'Q' } else if v == 82 { 'R' } else if v == 83 { 'S' } else if v == 84 { 'T' }
    else if v == 85 { 'U' } else if v == 86 { 'V' } else if v == 87 { 'W' } else if v == 88 { 'X' }
    else if v == 89 { 'Y' } else { 'Z' }
}

/// `s` without the dots it starts with.
pub open spec fn without_leading_dots(s: Seq<char>) -> Seq<char>
    decreases s.len(),
{
    if s.len() > 0 && s[0] == '.' { without_leading_dots(s.skip(1)) } else { s }
}

proof fn lemma_without_leading_dots(s: Seq<char>, i: int)
    requires
        0 <= i <= s.len(),
        forall|k: int| 0 <= k < i ==> s[k] == '.',
    ensures
        without_leading_dots(s) == without_leading_dots(s.skip(i)),
    decreases i,
{
    if i > 0 {
        lemma_without_leading_dots(s.skip(1), i - 1);
        assert(s.skip(1).skip(i - 1) =~= s.skip(i));
    } else {
        assert(s.skip(0) =~= s);
    }
}

/// The file a track is exported under: its name and the extension, given
/// with or without its leading dots; none when the extension is nothing but
/// dots.
pub open spec fn track_export_file_name(track_name: Seq<char>, extension: Seq<char>) -> Option<Seq<char>> {
    let e = without_leading_dots(extension);
    if e.len() == 0 { None } else { Some(track_name + "."@ + e) }
}

pub fn tracks_export_file_name(track_name: &str, extension: &str) -> (r: Option<String>)
    ensures
        match r {
            Some(n) => track_export_file_name(track_name@, extension@) == Some(n@),
            None => track_export_file_name(track_name@, extension@) is None,
        },
{
    let n = extension.unicode_len();
    let mut i: usize = 0;
    while i < n
        invariant
            n == extension@.len(),
            i <= n,
            forall|k: int| 0 <= k < i ==> extension@[k] == '.',
        ensures
            i <= n,
            forall|k: int| 0 <= k < i ==> extension@[k] == '.',
            i < n ==> extension@[i as int] != '.',
        decreases n - i,
    {
        if extension.get_char(i) != '.' {
            break;
        }
        i = i + 1;
    }
    proof {
        lemma_without_leading_dots(extension@, i as int);
        let rest = extension@.skip(i as int);
        if i < n {
            assert(rest[0] == extension@[i as int]);
        } else {
            assert(rest.len() == 0);
        }
        assert(without_leading_dots(rest) == rest);
    }
    if i == n {
        return None;
    }
    let rest = extension.substring_char(i, n);
    proof {
        assert(rest@ =~= extension@.skip(i as int));
    }
    let mut name = String::from_str(track_name);
    name.append(".");
    name.append(rest);
    Some(name)
}

} // verus!
