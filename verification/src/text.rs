//! Character-level text handling shared by the parsers and formatters.
//!
//! Strings are modelled by their view, a `Seq<char>`. Every function here is
//! stated over those sequences; the only trusted step is Unicode lower-casing.
use vstd::prelude::*;

verus! {

// ---------------------------------------------------------------------------
// Character classes
// ---------------------------------------------------------------------------

/// Unicode `White_Space`, the set that `char::is_whitespace` accepts.
pub open spec fn is_white(c: char) -> bool {
    let u = c as u32;
    ||| 0x09 <= u <= 0x0d
    ||| u == 0x20
    ||| u == 0x85
    ||| u == 0xa0
    ||| u == 0x1680
    ||| 0x2000 <= u <= 0x200a
    ||| u == 0x2028
    ||| u == 0x2029
    ||| u == 0x202f
    ||| u == 0x205f
    ||| u == 0x3000
}

/// An ASCII hexadecimal digit: `0-9`, `a-f` or `A-F`.
pub open spec fn is_hex_digit(c: char) -> bool {
    let u = c as u32;
    ||| 0x30 <= u <= 0x39
    ||| 0x41 <= u <= 0x46
    ||| 0x61 <= u <= 0x66
}

/// ASCII lower-casing of one character: `A-Z` map to `a-z`, all else stays.
pub open spec fn ascii_lower(c: char) -> char {
    if 0x41 <= (c as u32) <= 0x5a {
        ((c as u32) + 32) as char
    } else {
        c
    }
}

/// ASCII lower-casing of a whole sequence.
pub open spec fn ascii_lower_seq(s: Seq<char>) -> Seq<char> {
    s.map_values(|c: char| ascii_lower(c))
}

/// Equality up to ASCII case, as `str::eq_ignore_ascii_case` decides it.
pub open spec fn eq_ignore_case(a: Seq<char>, b: Seq<char>) -> bool {
    ascii_lower_seq(a) == ascii_lower_seq(b)
}

pub fn is_white_char(c: char) -> (res: bool)
    ensures
        res == is_white(c),
{
    let u = c as u32;
    (0x09 <= u && u <= 0x0d) || u == 0x20 || u == 0x85 || u == 0xa0 || u == 0x1680 || (0x2000
        <= u && u <= 0x200a) || u == 0x2028 || u == 0x2029 || u == 0x202f || u == 0x205f || u
        == 0x3000
}

pub fn is_hex_digit_char(c: char) -> (res: bool)
    ensures
        res == is_hex_digit(c),
{
    let u = c as u32;
    (0x30 <= u && u <= 0x39) || (0x41 <= u && u <= 0x46) || (0x61 <= u && u <= 0x66)
}

pub fn ascii_lower_char(c: char) -> (res: char)
    ensures
        res == ascii_lower(c),
{
    let u = c as u32;
    if 0x41 <= u && u <= 0x5a {
        let b = (u + 32) as u8;
        b as char
    } else {
        c
    }
}

// ---------------------------------------------------------------------------
// Conversions between `str`/`String` and character vectors
// ---------------------------------------------------------------------------

/// The characters of `s`, in order.
pub fn chars_of(s: &str) -> (res: Vec<char>)
    ensures
        res@ == s@,
{
    let mut res: Vec<char> = Vec::new();
    for c in it: s.chars()
        invariant
            res@ == it.seq().take(it.index() as int),
    {
        res.push(c);
    }
    res
}

/// `String::push`: appends one character.
#[verifier::external_body]
fn push_char(s: &mut String, c: char)
    ensures
        final(s)@ == old(s)@.push(c),
{
    s.push(c);
}

/// A `String` holding exactly the characters of `v`.
pub fn string_of(v: &Vec<char>) -> (res: String)
    ensures
        res@ == v@,
{
    let mut res = String::new();
    let mut i: usize = 0;
    while i < v.len()
        invariant
            i <= v.len(),
            res@ == v@.take(i as int),
        decreases v.len() - i,
    {
        push_char(&mut res, v[i]);
        i = i + 1;
        assert(v@.take(i as int) =~= v@.take((i - 1) as int).push(v@[i - 1]));
    }
    assert(v@.take(v.len() as int) =~= v@);
    res
}

/// A `String` with the characters of `s`.
pub fn string_from(s: &str) -> (res: String)
    ensures
        res@ == s@,
{
    let v = chars_of(s);
    string_of(&v)
}

/// The characters of `v` from index `lo` up to, not including, `hi`.
pub fn slice_chars(v: &Vec<char>, lo: usize, hi: usize) -> (res: Vec<char>)
    requires
        lo <= hi <= v.len(),
    ensures
        res@ == v@.subrange(lo as int, hi as int),
{
    let mut res: Vec<char> = Vec::new();
    let mut i: usize = lo;
    while i < hi
        invariant
            lo <= i <= hi <= v.len(),
            res@ == v@.subrange(lo as int, i as int),
        decreases hi - i,
    {
        res.push(v[i]);
        i = i + 1;
        assert(v@.subrange(lo as int, i as int) =~= v@.subrange(lo as int, (i - 1) as int).push(
            v@[i - 1],
        ));
    }
    res
}

/// Appends the characters of `w` to `v`.
pub fn append_chars(v: &mut Vec<char>, w: &Vec<char>)
    ensures
        final(v)@ == old(v)@ + w@,
{
    let mut i: usize = 0;
    while i < w.len()
        invariant
            i <= w.len(),
            v@ == old(v)@ + w@.take(i as int),
        decreases w.len() - i,
    {
        v.push(w[i]);
        i = i + 1;
        assert(old(v)@ + w@.take(i as int) =~= (old(v)@ + w@.take((i - 1) as int)).push(
            w@[i - 1],
        ));
    }
    assert(w@.take(w.len() as int) =~= w@);
}

/// Appends the characters of `s` to `v`.
pub fn append_str(v: &mut Vec<char>, s: &str)
    ensures
        final(v)@ == old(v)@ + s@,
{
    let w = chars_of(s);
    append_chars(v, &w);
}

// ---------------------------------------------------------------------------
// Comparison
// ---------------------------------------------------------------------------

/// Equality of two character vectors.
pub fn chars_equal(a: &Vec<char>, b: &Vec<char>) -> (res: bool)
    ensures
        res == (a@ == b@),
{
    if a.len() != b.len() {
        return false;
    }
    let mut i: usize = 0;
    while i < a.len()
        invariant
            a.len() == b.len(),
            i <= a.len(),
            forall|k: int| 0 <= k < i ==> a@[k] == b@[k],
        decreases a.len() - i,
    {
        if a[i] != b[i] {
            return false;
        }
        i = i + 1;
    }
    assert(a@ =~= b@);
    true
}

/// Equality of two string slices, character by character.
pub fn str_equal(a: &str, b: &str) -> (res: bool)
    ensures
        res == (a@ == b@),
{
    let va = chars_of(a);
    let vb = chars_of(b);
    chars_equal(&va, &vb)
}

/// `str::eq_ignore_ascii_case`.
pub fn eq_ignore_ascii_case(a: &str, b: &str) -> (res: bool)
    ensures
        res == eq_ignore_case(a@, b@),
{
    let va = chars_of(a);
    let vb = chars_of(b);
    if va.len() != vb.len() {
        assert(ascii_lower_seq(a@).len() != ascii_lower_seq(b@).len());
        return false;
    }
    let mut i: usize = 0;
    while i < va.len()
        invariant
            va@ == a@,
            vb@ == b@,
            va.len() == vb.len(),
            i <= va.len(),
            forall|k: int| 0 <= k < i ==> ascii_lower(a@[k]) == ascii_lower(b@[k]),
        decreases va.len() - i,
    {
        if ascii_lower_char(va[i]) != ascii_lower_char(vb[i]) {
            assert(ascii_lower_seq(a@)[i as int] != ascii_lower_seq(b@)[i as int]);
            return false;
        }
        i = i + 1;
    }
    assert(ascii_lower_seq(a@) =~= ascii_lower_seq(b@));
    true
}

/// ASCII lower-casing of a character vector.
pub fn ascii_lower_chars(v: &Vec<char>) -> (res: Vec<char>)
    ensures
        res@ == ascii_lower_seq(v@),
{
    let mut res: Vec<char> = Vec::new();
    let mut i: usize = 0;
    while i < v.len()
        invariant
            i <= v.len(),
            res@ == ascii_lower_seq(v@.take(i as int)),
        decreases v.len() - i,
    {
        res.push(ascii_lower_char(v[i]));
        i = i + 1;
        assert(ascii_lower_seq(v@.take(i as int)) =~= ascii_lower_seq(v@.take((i - 1) as int)).push(
            ascii_lower(v@[i - 1]),
        ));
    }
    assert(v@.take(v.len() as int) =~= v@);
    res
}

// ---------------------------------------------------------------------------
// Unicode lower-casing (trusted)
// ---------------------------------------------------------------------------

/// What `str::to_lowercase` returns for a string with these characters.
pub uninterp spec fn unicode_lowercase(s: Seq<char>) -> Seq<char>;

/// Calls `str::to_lowercase`. The contract claims only that the result is a
/// function of the characters of `s`: the Unicode case tables are not stated.
#[verifier::external_body]
pub(crate) fn to_lowercase(s: &str) -> (res: String)
    ensures
        res@ == unicode_lowercase(s@),
{
    s.to_lowercase()
}

// ---------------------------------------------------------------------------
// Searching
// ---------------------------------------------------------------------------

/// Whether `s` holds `c` somewhere.
pub fn contains_char(v: &Vec<char>, c: char) -> (res: bool)
    ensures
        res == v@.contains(c),
{
    let mut i: usize = 0;
    while i < v.len()
        invariant
            i <= v.len(),
            forall|k: int| 0 <= k < i ==> v@[k] != c,
        decreases v.len() - i,
    {
        if v[i] == c {
            assert(v@[i as int] == c);
            return true;
        }
        i = i + 1;
    }
    false
}

/// Index of the first occurrence of `c` in `s`, if any.
pub open spec fn first_index(s: Seq<char>, c: char) -> Option<int> {
    if s.contains(c) {
        Some(choose|i: int| 0 <= i < s.len() && s[i] == c && forall|k: int| 0 <= k < i ==> s[k] != c)
    } else {
        None
    }
}

/// Index of the last occurrence of `c` in `s`, if any.
pub open spec fn last_index(s: Seq<char>, c: char) -> Option<int> {
    if s.contains(c) {
        Some(
            choose|i: int|
                0 <= i < s.len() && s[i] == c && forall|k: int| i < k < s.len() ==> s[k] != c,
        )
    } else {
        None
    }
}

proof fn lemma_first_index(s: Seq<char>, c: char, i: int)
    requires
        0 <= i < s.len(),
        s[i] == c,
        forall|k: int| 0 <= k < i ==> s[k] != c,
    ensures
        first_index(s, c) == Some(i),
{
    assert(s.contains(c));
    let j = choose|j: int| 0 <= j < s.len() && s[j] == c && forall|k: int| 0 <= k < j ==> s[k] != c;
    assert(0 <= j < s.len() && s[j] == c && forall|k: int| 0 <= k < j ==> s[k] != c);
    if j < i {
        assert(s[j] != c);
    }
    if i < j {
        assert(s[i] != c);
    }
}

proof fn lemma_last_index(s: Seq<char>, c: char, i: int)
    requires
        0 <= i < s.len(),
        s[i] == c,
        forall|k: int| i < k < s.len() ==> s[k] != c,
    ensures
        last_index(s, c) == Some(i),
{
    assert(s.contains(c));
    let j = choose|j: int|
        0 <= j < s.len() && s[j] == c && forall|k: int| j < k < s.len() ==> s[k] != c;
    assert(0 <= j < s.len() && s[j] == c && forall|k: int| j < k < s.len() ==> s[k] != c);
    if j < i {
        assert(s[i] != c);
    }
    if i < j {
        assert(s[j] != c);
    }
}

/// `str::find` for a single character, as a character index.
pub fn find_char(v: &Vec<char>, c: char) -> (res: Option<usize>)
    ensures
        match res {
            Some(i) => first_index(v@, c) == Some(i as int) && i < v.len(),
            None => first_index(v@, c) is None,
        },
{
    let mut i: usize = 0;
    while i < v.len()
        invariant
            i <= v.len(),
            forall|k: int| 0 <= k < i ==> v@[k] != c,
        decreases v.len() - i,
    {
        if v[i] == c {
            proof {
                lemma_first_index(v@, c, i as int);
            }
            return Some(i);
        }
        i = i + 1;
    }
    None
}

/// `str::rfind` for a single character, as a character index.
pub fn rfind_char(v: &Vec<char>, c: char) -> (res: Option<usize>)
    ensures
        match res {
            Some(i) => last_index(v@, c) == Some(i as int) && i < v.len(),
            None => last_index(v@, c) is None,
        },
{
    let mut i: usize = v.len();
    while i > 0
        invariant
            i <= v.len(),
            forall|k: int| i <= k < v.len() ==> v@[k] != c,
        decreases i,
    {
        if v[i - 1] == c {
            proof {
                lemma_last_index(v@, c, i - 1);
            }
            return Some(i - 1);
        }
        i = i - 1;
    }
    None
}

/// Whether `s` starts with `prefix`.
pub open spec fn has_prefix(s: Seq<char>, prefix: Seq<char>) -> bool {
    prefix.len() <= s.len() && s.take(prefix.len() as int) == prefix
}

pub fn starts_with_chars(v: &Vec<char>, prefix: &Vec<char>) -> (res: bool)
    ensures
        res == has_prefix(v@, prefix@),
{
    if prefix.len() > v.len() {
        return false;
    }
    let mut i: usize = 0;
    while i < prefix.len()
        invariant
            prefix.len() <= v.len(),
            i <= prefix.len(),
            forall|k: int| 0 <= k < i ==> v@[k] == prefix@[k],
        decreases prefix.len() - i,
    {
        if v[i] != prefix[i] {
            assert(v@.take(prefix.len() as int)[i as int] != prefix@[i as int]);
            return false;
        }
        i = i + 1;
    }
    assert(v@.take(prefix.len() as int) =~= prefix@);
    true
}

/// Index of the first occurrence of the non-empty `needle` in `s`.
pub open spec fn occurs_at(s: Seq<char>, needle: Seq<char>, i: int) -> bool {
    0 <= i && i + needle.len() <= s.len() && s.subrange(i, i + needle.len()) == needle
}

pub open spec fn first_occurrence(s: Seq<char>, needle: Seq<char>) -> Option<int> {
    if exists|i: int| occurs_at(s, needle, i) {
        Some(choose|i: int| occurs_at(s, needle, i) && forall|k: int| 0 <= k < i ==> !occurs_at(s, needle, k))
    } else {
        None
    }
}

fn occurs_at_exec(v: &Vec<char>, needle: &Vec<char>, i: usize) -> (res: bool)
    requires
        i + needle.len() <= v.len(),
    ensures
        res == occurs_at(v@, needle@, i as int),
{
    let mut k: usize = 0;
    while k < needle.len()
        invariant
            i + needle.len() <= v.len(),
            k <= needle.len(),
            forall|j: int| 0 <= j < k ==> v@[i + j] == needle@[j],
        decreases needle.len() - k,
    {
        if v[i + k] != needle[k] {
            assert(v@.subrange(i as int, i + needle.len())[k as int] != needle@[k as int]);
            return false;
        }
        k = k + 1;
    }
    assert(v@.subrange(i as int, i + needle.len()) =~= needle@);
    true
}

/// `str::find` for a string needle, as a character index.
pub fn find_chars(v: &Vec<char>, needle: &Vec<char>) -> (res: Option<usize>)
    ensures
        match res {
            Some(i) => first_occurrence(v@, needle@) == Some(i as int) && i + needle@.len()
                <= v@.len(),
            None => first_occurrence(v@, needle@) is None,
        },
{
    if needle.len() > v.len() {
        assert(forall|i: int| !occurs_at(v@, needle@, i));
        return None;
    }
    if needle.len() == 0 {
        assert(v@.subrange(0, 0) =~= needle@);
        assert(occurs_at(v@, needle@, 0));
        return Some(0);
    }
    let mut i: usize = 0;
    while i <= v.len() - needle.len()
        invariant
            0 < needle.len() <= v.len(),
            i <= v.len() - needle.len() + 1,
            forall|k: int| 0 <= k < i ==> !occurs_at(v@, needle@, k),
        decreases v.len() + 1 - i,
    {
        if occurs_at_exec(v, needle, i) {
            proof {
                let j = choose|j: int|
                    occurs_at(v@, needle@, j) && forall|k: int| 0 <= k < j ==> !occurs_at(v@, needle@, k);
                if j < i {
                    assert(!occurs_at(v@, needle@, j));
                }
                if i < j {
                    assert(!occurs_at(v@, needle@, i as int));
                }
            }
            return Some(i);
        }
        i = i + 1;
    }
    assert(forall|k: int| !occurs_at(v@, needle@, k));
    None
}

// ---------------------------------------------------------------------------
// Trimming
// ---------------------------------------------------------------------------

/// Drops the characters that satisfy `p` from the front of `s`.
pub open spec fn drop_front_while(s: Seq<char>, p: spec_fn(char) -> bool) -> Seq<char>
    decreases s.len(),
{
    if s.len() > 0 && p(s[0]) {
        drop_front_while(s.drop_first(), p)
    } else {
        s
    }
}

/// Drops the characters that satisfy `p` from the back of `s`.
pub open spec fn drop_back_while(s: Seq<char>, p: spec_fn(char) -> bool) -> Seq<char>
    decreases s.len(),
{
    if s.len() > 0 && p(s.last()) {
        drop_back_while(s.drop_last(), p)
    } else {
        s
    }
}

/// Drops the characters that satisfy `p` from both ends of `s`.
pub open spec fn trim_by(s: Seq<char>, p: spec_fn(char) -> bool) -> Seq<char> {
    drop_back_while(drop_front_while(s, p), p)
}

pub open spec fn white() -> spec_fn(char) -> bool {
    |c: char| is_white(c)
}

/// `str::trim`: Unicode white space removed from both ends.
pub open spec fn trim(s: Seq<char>) -> Seq<char> {
    trim_by(s, white())
}

/// Which set of characters a trim removes.
pub enum TrimSet {
    /// Unicode white space.
    White,
    /// The characters `:`, `*` and `,`.
    GuidMarks,
}

/// The characters `str::trim_matches` strips around a GUID token.
pub open spec fn is_guid_mark(c: char) -> bool {
    c == ':' || c == '*' || c == ','
}

pub open spec fn guid_marks() -> spec_fn(char) -> bool {
    |c: char| is_guid_mark(c)
}

pub open spec fn trim_set_pred(set: TrimSet) -> spec_fn(char) -> bool {
    match set {
        TrimSet::White => white(),
        TrimSet::GuidMarks => guid_marks(),
    }
}

fn in_trim_set(set: &TrimSet, c: char) -> (res: bool)
    ensures
        res == (trim_set_pred(*set))(c),
{
    match set {
        TrimSet::White => is_white_char(c),
        TrimSet::GuidMarks => c == ':' || c == '*' || c == ',',
    }
}

proof fn lemma_drop_front_skip(s: Seq<char>, p: spec_fn(char) -> bool, i: int)
    requires
        0 <= i < s.len(),
        p(s[i]),
    ensures
        drop_front_while(s.skip(i), p) == drop_front_while(s.skip(i + 1), p),
{
    assert(s.skip(i).drop_first() =~= s.skip(i + 1));
}

proof fn lemma_drop_back_take(s: Seq<char>, p: spec_fn(char) -> bool, j: int)
    requires
        0 < j <= s.len(),
        p(s[j - 1]),
    ensures
        drop_back_while(s.take(j), p) == drop_back_while(s.take(j - 1), p),
{
    assert(s.take(j).drop_last() =~= s.take(j - 1));
}

/// Trims the characters of `set` from both ends of `v`.
pub fn trim_chars(v: &Vec<char>, set: TrimSet) -> (res: Vec<char>)
    ensures
        res@ == trim_by(v@, trim_set_pred(set)),
{
    let ghost p = trim_set_pred(set);
    let mut i: usize = 0;
    assert(v@.skip(0) =~= v@);
    while i < v.len() && in_trim_set(&set, v[i])
        invariant
            i <= v.len(),
            p == trim_set_pred(set),
            drop_front_while(v@, p) == drop_front_while(v@.skip(i as int), p),
        decreases v.len() - i,
    {
        proof {
            lemma_drop_front_skip(v@, p, i as int);
        }
        i = i + 1;
    }
    let ghost front = v@.skip(i as int);
    assert(drop_front_while(front, p) == front);
    let mut j: usize = v.len();
    assert(front.take(front.len() as int) =~= front);
    while j > i && in_trim_set(&set, v[j - 1])
        invariant
            i <= j <= v.len(),
            p == trim_set_pred(set),
            front == v@.skip(i as int),
            drop_back_while(front, p) == drop_back_while(front.take(j - i), p),
        decreases j,
    {
        proof {
            lemma_drop_back_take(front, p, j - i);
        }
        j = j - 1;
    }
    assert(drop_back_while(front.take(j - i), p) == front.take(j - i));
    assert(front.take(j - i) =~= v@.subrange(i as int, j as int));
    slice_chars(v, i, j)
}

// ---------------------------------------------------------------------------
// Lines and words
// ---------------------------------------------------------------------------

/// The pieces of `s` between `'\n'` characters, as `str::split('\n')` gives
/// them: one more piece than there are newlines.
pub open spec fn newline_pieces(s: Seq<char>) -> Seq<Seq<char>>
    decreases s.len(),
{
    if s.len() == 0 {
        seq![Seq::<char>::empty()]
    } else {
        let p = newline_pieces(s.drop_last());
        if s.last() == '\n' {
            p.push(Seq::<char>::empty())
        } else {
            p.update(p.len() - 1, p.last().push(s.last()))
        }
    }
}

/// One `'\r'` removed from the end of a piece that a newline ended.
pub open spec fn strip_cr(s: Seq<char>) -> Seq<char> {
    if s.len() > 0 && s.last() == '\r' {
        s.drop_last()
    } else {
        s
    }
}

/// `str::lines`: the pieces between newlines, where a newline may be
/// preceded by a carriage return that is removed with it, and where a final
/// newline does not start another, empty line.
pub open spec fn text_lines(s: Seq<char>) -> Seq<Seq<char>> {
    let p = newline_pieces(s);
    let ended = p.drop_last().map_values(|l: Seq<char>| strip_cr(l));
    if p.last().len() == 0 {
        ended
    } else {
        ended.push(p.last())
    }
}

/// Splits `v` into lines, as `str::lines` does.
pub fn split_lines(v: &Vec<char>) -> (res: Vec<Vec<char>>)
    ensures
        res@.map_values(|l: Vec<char>| l@) == text_lines(v@),
{
    let mut done: Vec<Vec<char>> = Vec::new();
    let mut cur: Vec<char> = Vec::new();
    let mut i: usize = 0;
    assert(v@.take(0) =~= Seq::<char>::empty());
    while i < v.len()
        invariant
            i <= v.len(),
            newline_pieces(v@.take(i as int)) == done@.map_values(|l: Vec<char>| l@).push(cur@),
        decreases v.len() - i,
    {
        let c = v[i];
        proof {
            assert(v@.take(i + 1).drop_last() =~= v@.take(i as int));
            assert(v@.take(i + 1).last() == c);
        }
        if c == '\n' {
            let ghost old_done = done@.map_values(|l: Vec<char>| l@);
            let mut line: Vec<char> = Vec::new();
            std::mem::swap(&mut line, &mut cur);
            done.push(line);
            assert(done@.map_values(|l: Vec<char>| l@) =~= old_done.push(line@));
        } else {
            let ghost old_done = done@.map_values(|l: Vec<char>| l@);
            let ghost old_cur = cur@;
            cur.push(c);
            assert(done@.map_values(|l: Vec<char>| l@).push(cur@) =~= old_done.push(old_cur).update(
                old_done.len() as int,
                old_done.push(old_cur).last().push(c),
            ));
        }
        i = i + 1;
    }
    assert(v@.take(v.len() as int) =~= v@);
    let ghost pieces = newline_pieces(v@);
    let ghost ended = pieces.drop_last().map_values(|l: Seq<char>| strip_cr(l));
    assert(pieces.drop_last() =~= done@.map_values(|l: Vec<char>| l@));
    let mut res: Vec<Vec<char>> = Vec::new();
    let mut k: usize = 0;
    while k < done.len()
        invariant
            k <= done.len(),
            pieces.drop_last() == done@.map_values(|l: Vec<char>| l@),
            ended == pieces.drop_last().map_values(|l: Seq<char>| strip_cr(l)),
            res@.map_values(|l: Vec<char>| l@) == ended.take(k as int),
        decreases done.len() - k,
    {
        let piece = &done[k];
        let n = piece.len();
        let line = if n > 0 && piece[n - 1] == '\r' {
            slice_chars(piece, 0, n - 1)
        } else {
            slice_chars(piece, 0, n)
        };
        proof {
            assert(done@.map_values(|l: Vec<char>| l@)[k as int] == piece@);
            assert(piece@.subrange(0, n as int) =~= piece@);
            assert(n > 0 ==> piece@.subrange(0, n - 1) =~= piece@.drop_last());
            assert(line@ == strip_cr(piece@));
            assert(ended[k as int] == strip_cr(piece@));
        }
        let ghost before = res@.map_values(|l: Vec<char>| l@);
        res.push(line);
        assert(res@.map_values(|l: Vec<char>| l@) =~= before.push(line@));
        assert(ended.take(k + 1) =~= ended.take(k as int).push(ended[k as int]));
        k = k + 1;
    }
    assert(ended.take(done.len() as int) =~= ended);
    if cur.len() > 0 {
        let ghost before = res@.map_values(|l: Vec<char>| l@);
        res.push(cur);
        assert(res@.map_values(|l: Vec<char>| l@) =~= before.push(pieces.last()));
    }
    res
}

/// `str::split_whitespace`: the maximal runs of characters that are not
/// white space, in order.
pub open spec fn words(s: Seq<char>) -> Seq<Seq<char>>
    decreases s.len(),
{
    if s.len() == 0 {
        seq![]
    } else {
        let w = words(s.drop_last());
        let c = s.last();
        if is_white(c) {
            w
        } else if s.len() >= 2 && !is_white(s[s.len() - 2]) {
            w.update(w.len() - 1, w.last().push(c))
        } else {
            w.push(seq![c])
        }
    }
}

/// Splits `v` at white space, as `str::split_whitespace` does.
pub fn split_words(v: &Vec<char>) -> (res: Vec<Vec<char>>)
    ensures
        res@.map_values(|w: Vec<char>| w@) == words(v@),
{
    let mut done: Vec<Vec<char>> = Vec::new();
    let mut cur: Vec<char> = Vec::new();
    let mut i: usize = 0;
    assert(v@.take(0) =~= Seq::<char>::empty());
    assert(done@.map_values(|w: Vec<char>| w@) =~= Seq::<Seq<char>>::empty());
    while i < v.len()
        invariant
            i <= v.len(),
            cur@.len() == 0 ==> words(v@.take(i as int)) == done@.map_values(|w: Vec<char>| w@),
            cur@.len() > 0 ==> words(v@.take(i as int)) == done@.map_values(|w: Vec<char>| w@).push(
                cur@,
            ),
            cur@.len() > 0 ==> i > 0 && !is_white(v@[i - 1]),
            cur@.len() == 0 && i > 0 ==> is_white(v@[i - 1]),
        decreases v.len() - i,
    {
        let c = v[i];
        let ghost t = v@.take(i + 1);
        proof {
            assert(t.drop_last() =~= v@.take(i as int));
            assert(t.last() == c);
            if i > 0 {
                assert(t[t.len() - 2] == v@[i - 1]);
            }
        }
        if is_white_char(c) {
            if cur.len() > 0 {
                let mut w: Vec<char> = Vec::new();
                std::mem::swap(&mut w, &mut cur);
                let ghost before = done@.map_values(|w: Vec<char>| w@);
                done.push(w);
                assert(done@.map_values(|w: Vec<char>| w@) =~= before.push(w@));
            }
        } else {
            let ghost before = done@.map_values(|w: Vec<char>| w@);
            let ghost old_cur = cur@;
            cur.push(c);
            proof {
                if old_cur.len() > 0 {
                    assert(before.push(cur@) =~= before.push(old_cur).update(
                        before.len() as int,
                        before.push(old_cur).last().push(c),
                    ));
                } else {
                    assert(cur@ =~= seq![c]);
                }
            }
        }
        i = i + 1;
    }
    assert(v@.take(v.len() as int) =~= v@);
    if cur.len() > 0 {
        let ghost before = done@.map_values(|w: Vec<char>| w@);
        done.push(cur);
        assert(done@.map_values(|w: Vec<char>| w@) =~= before.push(cur@));
    }
    done
}

// ---------------------------------------------------------------------------
// Number formatting
// ---------------------------------------------------------------------------

/// The decimal digit for `d < 10`.
pub open spec fn digit_char(d: nat) -> char {
    ((d + 0x30) as u32) as char
}

/// The upper-case hexadecimal digit for `d < 16`.
pub open spec fn hex_char(d: nat) -> char {
    if d < 10 {
        ((d + 0x30) as u32) as char
    } else {
        ((d - 10 + 0x41) as u32) as char
    }
}

/// The decimal representation of `n`, without leading zeros.
pub open spec fn decimal(n: nat) -> Seq<char>
    decreases n,
{
    if n < 10 {
        seq![digit_char(n)]
    } else {
        decimal(n / 10).push(digit_char(n % 10))
    }
}

/// `n` in exactly `width` upper-case hexadecimal digits (the low ones).
pub open spec fn hex_fixed(n: nat, width: nat) -> Seq<char>
    decreases width,
{
    if width == 0 {
        seq![]
    } else {
        hex_fixed(n / 16, (width - 1) as nat).push(hex_char(n % 16))
    }
}

/// `s` padded on the left with `'0'` up to `width` characters.
pub open spec fn zero_pad(s: Seq<char>, width: nat) -> Seq<char> {
    if s.len() < width {
        Seq::new((width - s.len()) as nat, |i: int| '0') + s
    } else {
        s
    }
}

fn digit_of(d: u64) -> (res: char)
    requires
        d < 10,
    ensures
        res == digit_char(d as nat),
{
    let b = (d + 0x30) as u8;
    b as char
}

fn hex_digit_of(d: u32) -> (res: char)
    requires
        d < 16,
    ensures
        res == hex_char(d as nat),
{
    if d < 10 {
        let b = (d + 0x30) as u8;
        b as char
    } else {
        let b = (d - 10 + 0x41) as u8;
        b as char
    }
}

/// The decimal digits of `n`.
pub fn decimal_chars(n: u64) -> (res: Vec<char>)
    ensures
        res@ == decimal(n as nat),
{
    let mut acc: Vec<char> = Vec::new();
    let mut rest: u64 = n;
    while rest >= 10
        invariant
            decimal(n as nat) == decimal(rest as nat) + acc@,
        decreases rest,
    {
        let d = digit_of(rest % 10);
        let ghost old_acc = acc@;
        acc.insert(0, d);
        assert(decimal(rest as nat) == decimal((rest / 10) as nat).push(d));
        assert(decimal((rest / 10) as nat).push(d) + old_acc =~= decimal((rest / 10) as nat)
            + acc@);
        rest = rest / 10;
    }
    let d = digit_of(rest);
    let ghost old_acc = acc@;
    acc.insert(0, d);
    assert(decimal(rest as nat) + old_acc =~= acc@);
    acc
}

/// `width` upper-case hexadecimal digits of `n`.
pub fn hex_chars(n: u32, width: usize) -> (res: Vec<char>)
    ensures
        res@ == hex_fixed(n as nat, width as nat),
{
    let mut acc: Vec<char> = Vec::new();
    let mut rest: u32 = n;
    let mut k: usize = width;
    while k > 0
        invariant
            k <= width,
            hex_fixed(n as nat, width as nat) == hex_fixed(rest as nat, k as nat) + acc@,
        decreases k,
    {
        let d = hex_digit_of(rest % 16);
        let ghost old_acc = acc@;
        acc.insert(0, d);
        assert(hex_fixed(rest as nat, k as nat) == hex_fixed((rest / 16) as nat, (k - 1) as nat).push(
            d,
        ));
        assert(hex_fixed((rest / 16) as nat, (k - 1) as nat).push(d) + old_acc =~= hex_fixed(
            (rest / 16) as nat,
            (k - 1) as nat,
        ) + acc@);
        rest = rest / 16;
        k = k - 1;
    }
    assert(hex_fixed(rest as nat, 0) + acc@ =~= acc@);
    acc
}

/// `v` padded on the left with `'0'` up to `width` characters.
pub fn zero_pad_chars(v: Vec<char>, width: usize) -> (res: Vec<char>)
    ensures
        res@ == zero_pad(v@, width as nat),
{
    if v.len() >= width {
        return v;
    }
    let mut res: Vec<char> = Vec::new();
    let fill = width - v.len();
    let mut i: usize = 0;
    while i < fill
        invariant
            i <= fill,
            res@ == Seq::new(i as nat, |j: int| '0'),
        decreases fill - i,
    {
        res.push('0');
        i = i + 1;
        assert(res@ =~= Seq::new(i as nat, |j: int| '0'));
    }
    append_chars(&mut res, &v);
    res
}

// ---------------------------------------------------------------------------
// Laws
// ---------------------------------------------------------------------------

proof fn lemma_pieces_have_no_newline(s: Seq<char>)
    ensures
        forall|i: int, j: int|
            0 <= i < newline_pieces(s).len() && 0 <= j < newline_pieces(s)[i].len()
                ==> #[trigger] newline_pieces(s)[i][j] != '\n',
        newline_pieces(s).len() >= 1,
    decreases s.len(),
{
    if s.len() > 0 {
        lemma_pieces_have_no_newline(s.drop_last());
        let p = newline_pieces(s.drop_last());
        let q = newline_pieces(s);
        assert forall|i: int, j: int| 0 <= i < q.len() && 0 <= j < q[i].len() implies #[trigger] q[i][j]
            != '\n' by {
            if i < p.len() - 1 {
                assert(q[i] == p[i]);
            } else if i == p.len() - 1 {
                if s.last() != '\n' {
                    if j < p[i].len() {
                        assert(q[i][j] == p[i][j]);
                    }
                } else {
                    assert(q[i] == p[i]);
                }
            }
        }
    }
}

/// No line of a text holds a newline.
pub proof fn law_lines_hold_no_newline(s: Seq<char>)
    ensures
        forall|i: int, j: int|
            0 <= i < text_lines(s).len() && 0 <= j < text_lines(s)[i].len()
                ==> #[trigger] text_lines(s)[i][j] != '\n',
{
    lemma_pieces_have_no_newline(s);
    let p = newline_pieces(s);
    let l = text_lines(s);
    assert forall|i: int, j: int| 0 <= i < l.len() && 0 <= j < l[i].len() implies #[trigger] l[i][j]
        != '\n' by {
        if i < p.len() - 1 {
            assert(l[i] == strip_cr(p[i]));
            assert(l[i][j] == p[i][j]);
        } else {
            assert(l[i] == p[i]);
        }
    }
}

/// A text without newlines is one line, or none when it is empty.
pub proof fn law_single_line(s: Seq<char>)
    requires
        !s.contains('\n'),
    ensures
        s.len() > 0 ==> text_lines(s) == seq![s],
        s.len() == 0 ==> text_lines(s).len() == 0,
    decreases s.len(),
{
    lemma_single_piece(s);
    if s.len() > 0 {
        assert(newline_pieces(s).drop_last() =~= Seq::<Seq<char>>::empty());
        assert(text_lines(s) =~= seq![s]);
    }
}

proof fn lemma_single_piece(s: Seq<char>)
    requires
        !s.contains('\n'),
    ensures
        newline_pieces(s) == seq![s],
    decreases s.len(),
{
    if s.len() > 0 {
        let t = s.drop_last();
        assert(!t.contains('\n')) by {
            if t.contains('\n') {
                let k = choose|k: int| 0 <= k < t.len() && t[k] == '\n';
                assert(s[k] == '\n');
            }
        }
        lemma_single_piece(t);
        assert(s.contains(s.last()));
        assert(s.last() != '\n');
        assert(t.push(s.last()) =~= s);
        assert(seq![t].update(0, s) =~= seq![s]);
    } else {
        assert(s =~= Seq::<char>::empty());
    }
}

/// Every word is non-empty and holds no white space.
pub proof fn law_words_are_runs(s: Seq<char>)
    ensures
        forall|i: int| 0 <= i < words(s).len() ==> (#[trigger] words(s)[i]).len() > 0,
        forall|i: int, j: int|
            0 <= i < words(s).len() && 0 <= j < words(s)[i].len() ==> !is_white(
                #[trigger] words(s)[i][j],
            ),
    decreases s.len(),
{
    if s.len() > 0 {
        law_words_are_runs(s.drop_last());
        let w = words(s.drop_last());
        let v = words(s);
        let c = s.last();
        if !is_white(c) && s.len() >= 2 && !is_white(s[s.len() - 2]) {
            assert(w.len() > 0) by {
                lemma_word_ends(s.drop_last());
            }
        }
        assert forall|i: int| 0 <= i < v.len() implies (#[trigger] v[i]).len() > 0 by {
            if i < w.len() && !(i == w.len() - 1 && !is_white(c) && s.len() >= 2 && !is_white(
                s[s.len() - 2],
            )) {
                assert(v[i] == w[i]);
            }
        }
        assert forall|i: int, j: int| 0 <= i < v.len() && 0 <= j < v[i].len() implies !is_white(
            #[trigger] v[i][j],
        ) by {
            if i < w.len() && !(i == w.len() - 1 && !is_white(c) && s.len() >= 2 && !is_white(
                s[s.len() - 2],
            )) {
                assert(v[i] == w[i]);
            } else if i < w.len() {
                if j < w[i].len() {
                    assert(v[i][j] == w[i][j]);
                }
            }
        }
    }
}

proof fn lemma_word_ends(s: Seq<char>)
    requires
        s.len() > 0,
        !is_white(s.last()),
    ensures
        words(s).len() > 0,
    decreases s.len(),
{
    if s.len() >= 2 && !is_white(s[s.len() - 2]) {
        assert(s.drop_last().last() == s[s.len() - 2]);
        lemma_word_ends(s.drop_last());
    }
}

/// The numeric value of a sequence of decimal digits.
pub open spec fn digits_value(s: Seq<char>) -> int
    decreases s.len(),
{
    if s.len() == 0 {
        0
    } else {
        digits_value(s.drop_last()) * 10 + ((s.last() as u32) - 0x30)
    }
}

/// The decimal representation of `n` consists of digits, has no leading
/// zero, and reads back as `n`.
pub proof fn law_decimal_reads_back(n: nat)
    ensures
        digits_value(decimal(n)) == n,
        decimal(n).len() >= 1,
        forall|i: int| 0 <= i < decimal(n).len() ==> 0x30 <= (#[trigger] decimal(n)[i] as u32) <= 0x39,
        decimal(n).len() > 1 ==> decimal(n)[0] != '0',
        decimal(n).len() > 1 <==> n >= 10,
    decreases n,
{
    let d = (n % 10) as nat;
    assert(vstd::utf8::is_scalar((d + 0x30) as u32));
    assert((digit_char(d) as u32) == d + 0x30);
    if n >= 10 {
        law_decimal_reads_back(n / 10);
        let p = decimal(n / 10);
        let q = decimal(n);
        assert(q == p.push(digit_char(d)));
        assert(q.drop_last() =~= p);
        assert(q.last() == digit_char(d));
        assert(digits_value(q) == digits_value(p) * 10 + ((digit_char(d) as u32) - 0x30));
        assert(digits_value(q) == (n / 10) * 10 + d);
        assert(q[0] == p[0]);
        assert forall|i: int| 0 <= i < q.len() implies 0x30 <= (#[trigger] q[i] as u32) <= 0x39 by {
            if i < p.len() {
                assert(q[i] == p[i]);
            }
        }
        if n / 10 < 10 {
            let e = (n / 10) as nat;
            assert(e >= 1);
            assert(vstd::utf8::is_scalar((e + 0x30) as u32));
            assert(p == seq![digit_char(e)]);
            assert((digit_char(e) as u32) == e + 0x30);
            assert(('0' as u32) == 0x30);
            assert(p[0] != '0');
        }
    } else {
        let q = decimal(n);
        assert(q == seq![digit_char(n)]);
        assert(q.drop_last() =~= Seq::<char>::empty());
        assert(digits_value(q.drop_last()) == 0);
        assert(q.last() == digit_char(n));
        assert(d == n);
    }
}

/// Padding with zeros keeps the digits at the end and fills the front up to
/// the width.
pub proof fn law_zero_pad(s: Seq<char>, width: nat)
    ensures
        zero_pad(s, width).len() == if s.len() < width {
            width as int
        } else {
            s.len() as int
        },
        zero_pad(s, width).skip(zero_pad(s, width).len() - s.len()) == s,
        forall|i: int| 0 <= i < zero_pad(s, width).len() - s.len() ==> #[trigger] zero_pad(s, width)[i] == '0',
{
    if s.len() < width {
        let f = Seq::new((width - s.len()) as nat, |i: int| '0');
        assert((f + s).skip(f.len() as int) =~= s);
    } else {
        assert(s.skip(0) =~= s);
    }
}

} // verus!
