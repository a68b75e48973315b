//! Character-level text scanning: leftmost occurrence of a separator,
//! splitting on a separator, substring containment, and blank lines.

use vstd::prelude::*;

verus! {

/// The separator between physical lines of the transcript.
pub open spec fn crlf() -> Seq<char> {
    seq!['\r', '\n']
}

/// The separator between day sections: a blank line.
pub open spec fn crlf_crlf() -> Seq<char> {
    seq!['\r', '\n', '\r', '\n']
}

/// `sep` occurs in `s` beginning exactly at index `i`.
pub open spec fn match_at(s: Seq<char>, sep: Seq<char>, i: int) -> bool {
    0 <= i && i + sep.len() <= s.len() && s.subrange(i, i + sep.len()) == sep
}

/// Index of the leftmost occurrence of `sep` in `s` at or after `from`.
pub open spec fn find_from(s: Seq<char>, sep: Seq<char>, from: int) -> Option<int>
    decreases s.len() - from,
{
    if sep.len() == 0 || from < 0 || from + sep.len() > s.len() {
        None
    } else if match_at(s, sep, from) {
        Some(from)
    } else {
        find_from(s, sep, from + 1)
    }
}

pub proof fn lemma_find_from_props(s: Seq<char>, sep: Seq<char>, from: int)
    requires
        from >= 0,
        sep.len() >= 1,
    ensures
        find_from(s, sep, from) matches Some(i) ==> from <= i && match_at(s, sep, i) && (forall|
            j: int,
        | from <= j < i ==> !match_at(s, sep, j)),
        find_from(s, sep, from) is None ==> forall|j: int| from <= j ==> !match_at(s, sep, j),
    decreases s.len() - from,
{
    if from < 0 || from + sep.len() > s.len() {
        assert forall|j: int| from <= j implies !match_at(s, sep, j) by {
            if match_at(s, sep, j) {
                assert(j + sep.len() <= s.len());
            }
        }
    } else if match_at(s, sep, from) {
    } else {
        lemma_find_from_props(s, sep, from + 1);
    }
}

/// The pieces of `s` between successive, non-overlapping, leftmost
/// occurrences of the non-empty separator `sep`; the separators
/// themselves are dropped.  Splitting always yields at least one piece.
pub open spec fn spec_split(s: Seq<char>, sep: Seq<char>) -> Seq<Seq<char>>
    decreases s.len(),
    when sep.len() > 0
    via spec_split_decreases
{
    match find_from(s, sep, 0) {
        Option::None => seq![s],
        Option::Some(i) => seq![s.subrange(0, i)] + spec_split(
            s.subrange(i + sep.len(), s.len() as int),
            sep,
        ),
    }
}

#[via_fn]
proof fn spec_split_decreases(s: Seq<char>, sep: Seq<char>) {
    lemma_find_from_props(s, sep, 0);
}

/// `p` occurs somewhere in `s` as a contiguous substring.
pub open spec fn contains_sub(s: Seq<char>, p: Seq<char>) -> bool {
    p.len() == 0 || find_from(s, p, 0) is Some
}

/// The character is one of Unicode's white-space characters.
pub open spec fn is_space_char(c: char) -> bool {
    let u = c as int;
    u == 0x20 || (0x9 <= u && u <= 0xd) || u == 0x85 || u == 0xa0 || u == 0x1680 || (0x2000 <= u
        && u <= 0x200a) || u == 0x2028 || u == 0x2029 || u == 0x202f || u == 0x205f || u == 0x3000
}

/// The text is empty or made of white space alone.
pub open spec fn is_blank(s: Seq<char>) -> bool {
    forall|i: int| 0 <= i < s.len() ==> is_space_char(s[i])
}

/// `sep` occurs in `s` beginning exactly at `i`.
fn is_match_at(s: &str, sep: &str, i: usize, sep_len: usize) -> (r: bool)
    requires
        i + sep@.len() <= s@.len(),
        s@.len() <= usize::MAX as int,
        sep_len == sep@.len(),
    ensures
        r == match_at(s@, sep@, i as int),
{
    let mut k: usize = 0;
    while k < sep_len
        invariant
            i + sep@.len() <= s@.len(),
            s@.len() <= usize::MAX as int,
            k <= sep_len,
            sep_len == sep@.len(),
            forall|j: int| 0 <= j < k ==> s@[i + j] == sep@[j],
        decreases sep_len - k,
    {
        if s.get_char(i + k) != sep.get_char(k) {
            assert(!match_at(s@, sep@, i as int)) by {
                if match_at(s@, sep@, i as int) {
                    assert(s@.subrange(i as int, i + sep@.len())[k as int] == sep@[k as int]);
                }
            }
            return false;
        }
        k += 1;
    }
    assert(s@.subrange(i as int, i + sep@.len()) =~= sep@);
    true
}

/// Index of the leftmost occurrence of `sep` in `s` at or after `from`,
/// if there is one.
pub fn find_from_str(s: &str, sep: &str, from: usize) -> (r: Option<usize>)
    requires
        sep@.len() >= 1,
    ensures
        (match r {
            Option::Some(i) => Option::Some(i as int),
            Option::None => Option::None,
        }) == find_from(s@, sep@, from as int),
{
    let s_len = s.unicode_len();
    let sep_len = sep.unicode_len();
    let mut i: usize = from;
    while i <= s_len && s_len - i >= sep_len
        invariant
            s_len == s@.len(),
            sep_len == sep@.len(),
            sep@.len() >= 1,
            i >= from,
            find_from(s@, sep@, from as int) == find_from(s@, sep@, i as int),
        decreases s_len - i,
    {
        if is_match_at(s, sep, i, sep_len) {
            return Some(i);
        }
        i += 1;
    }
    None
}

/// `p` occurs somewhere in `s` as a contiguous substring.
pub fn str_contains(s: &str, p: &str) -> (r: bool)
    ensures
        r == contains_sub(s@, p@),
{
    let p_len = p.unicode_len();
    if p_len == 0 {
        true
    } else {
        find_from_str(s, p, 0).is_some()
    }
}

/// Splits `s` on the non-empty separator `sep`, exactly as the spec-level
/// `spec_split` describes.
pub fn split_str<'a>(s: &'a str, sep: &str) -> (r: Vec<&'a str>)
    requires
        sep@.len() >= 1,
    ensures
        r.deep_view() == spec_split(s@, sep@),
        r.len() >= 1,
{
    let sep_len = sep.unicode_len();
    let mut r: Vec<&'a str> = Vec::new();
    let mut rest: &'a str = s;
    loop
        invariant
            sep_len == sep@.len(),
            sep@.len() >= 1,
            r.deep_view() + spec_split(rest@, sep@) == spec_split(s@, sep@),
        decreases rest@.len(),
    {
        let rest_len = rest.unicode_len();
        match find_from_str(rest, sep, 0) {
            Some(i) => {
                proof {
                    lemma_find_from_props(rest@, sep@, 0);
                }
                let piece = rest.substring_char(0, i);
                let ghost old_r = r.deep_view();
                let ghost old_rest = rest@;
                r.push(piece);
                rest = rest.substring_char(i + sep_len, rest_len);
                proof {
                    assert(r.deep_view() =~= old_r.push(piece@));
                    assert(piece@ =~= old_rest.subrange(0, i as int));
                    assert(spec_split(old_rest, sep@) == seq![old_rest.subrange(0, i as int)]
                        + spec_split(rest@, sep@));
                    assert(r.deep_view() + spec_split(rest@, sep@) =~= old_r + spec_split(
                        old_rest,
                        sep@,
                    ));
                }
            },
            None => {
                let ghost old_r = r.deep_view();
                r.push(rest);
                proof {
                    assert(spec_split(rest@, sep@) == seq![rest@]);
                    assert(r.deep_view() =~= old_r.push(rest@));
                    assert(r.deep_view() =~= old_r + spec_split(rest@, sep@));
                }
                return r;
            },
        }
    }
}

/// The views of the separator literals the parser scans for.
pub proof fn lemma_separator_literals()
    ensures
        "\r\n"@ == crlf(),
        "\r\n\r\n"@ == crlf_crlf(),
        "\t"@ == seq!['\t'],
        "\n"@ == seq!['\n'],
        ""@ == Seq::<char>::empty(),
{
    reveal_strlit("\r\n");
    reveal_strlit("\r\n\r\n");
    reveal_strlit("\t");
    reveal_strlit("\n");
    reveal_strlit("");
    assert("\r\n"@ =~= crlf());
    assert("\r\n\r\n"@ =~= crlf_crlf());
    assert("\t"@ =~= seq!['\t']);
    assert("\n"@ =~= seq!['\n']);
    assert(""@ =~= Seq::<char>::empty());
}

/// The text is empty or made of white space alone.
pub fn is_blank_str(s: &str) -> (r: bool)
    ensures
        r == is_blank(s@),
{
    let len = s.unicode_len();
    let mut i: usize = 0;
    while i < len
        invariant
            i <= len,
            len == s@.len(),
            forall|j: int| 0 <= j < i ==> is_space_char(s@[j]),
        decreases len - i,
    {
        let u = s.get_char(i) as u32;
        if !(u == 0x20 || (0x9 <= u && u <= 0xd) || u == 0x85 || u == 0xa0 || u == 0x1680 || (0x2000
            <= u && u <= 0x200a) || u == 0x2028 || u == 0x2029 || u == 0x202f || u == 0x205f || u
            == 0x3000) {
            return false;
        }
        i += 1;
    }
    true
}

} // verus!
