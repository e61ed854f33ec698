//! Text utilities over `Seq<char>` with their contracts.
//!
//! Lines, names and addresses are handled as character sequences; the
//! functions here are the searching, trimming, splitting, formatting and
//! number parsing that the sensor's logic needs.

use vstd::prelude::*;

verus! {

/// Copies the characters of a string slice into a vector.
pub fn chars_of(s: &str) -> (r: Vec<char>)
    ensures
        r@ == s@,
{
    let mut r: Vec<char> = Vec::new();
    for c in it: s.chars()
        invariant
            r@ == it.seq().take(it.index() as int),
            it.seq() == s@,
    {
        r.push(c);
    }
    r
}

/// Builds a `String` from a slice of characters (std `FromIterator<&char>`
/// for `String`: the string holds the characters in order).
#[verifier::external_body]
pub(crate) fn string_of(v: &[char]) -> (r: String)
    ensures
        r@ == v@,
{
    v.iter().collect()
}

/// Copies `s[from..to]`.
pub fn copy_range(s: &[char], from: usize, to: usize) -> (r: Vec<char>)
    requires
        from <= to <= s@.len(),
    ensures
        r@ == s@.subrange(from as int, to as int),
{
    let mut r: Vec<char> = Vec::new();
    let mut i = from;
    while i < to
        invariant
            from <= i <= to <= s@.len(),
            r@ == s@.subrange(from as int, i as int),
        decreases to - i,
    {
        r.push(s[i]);
        i += 1;
    }
    r
}

/// Appends `b` to `a`.
pub fn append_chars(a: &mut Vec<char>, b: &[char])
    ensures
        final(a)@ == old(a)@ + b@,
{
    let mut i: usize = 0;
    let ghost a0 = a@;
    while i < b.len()
        invariant
            i <= b@.len(),
            a@ == a0 + b@.subrange(0, i as int),
        decreases b.len() - i,
    {
        a.push(b[i]);
        i += 1;
    }
}

/// Appends the characters of a string slice to `a`.
pub fn append_str(a: &mut Vec<char>, s: &str)
    ensures
        final(a)@ == old(a)@ + s@,
{
    let c = chars_of(s);
    append_chars(a, c.as_slice());
}

/// Whether two character slices are equal.
pub fn chars_eq(a: &[char], b: &[char]) -> (r: bool)
    ensures
        r == (a@ == b@),
{
    if a.len() != b.len() {
        return false;
    }
    let mut i: usize = 0;
    while i < a.len()
        invariant
            a@.len() == b@.len(),
            i <= a@.len(),
            forall|k: int| 0 <= k < i ==> a@[k] == b@[k],
        decreases a.len() - i,
    {
        if a[i] != b[i] {
            return false;
        }
        i += 1;
    }
    assert(a@ =~= b@);
    true
}

// ------------------------------------------------------------------
// Whitespace and trimming
// ------------------------------------------------------------------

/// The Unicode `White_Space` property, which std's `char::is_whitespace`
/// and `str::trim` go by.
pub open spec fn is_white_space(c: char) -> bool {
    let u = c as u32;
    ||| 0x9 <= u <= 0xd
    ||| u == 0x20
    ||| u == 0x85
    ||| u == 0xa0
    ||| u == 0x1680
    ||| 0x2000 <= u <= 0x200a
    ||| u == 0x2028
    ||| u == 0x2029
    ||| u == 0x202f
    ||| u == 0x205f
    ||| u == 0x3000
}

/// std `char::is_whitespace`.
pub fn is_white_space_char(c: char) -> (r: bool)
    ensures
        r == is_white_space(c),
{
    let u = c as u32;
    (0x9 <= u && u <= 0xd) || u == 0x20 || u == 0x85 || u == 0xa0 || u == 0x1680 || (0x2000 <= u
        && u <= 0x200a) || u == 0x2028 || u == 0x2029 || u == 0x202f || u == 0x205f || u == 0x3000
}

/// `s` without its leading white space.
pub open spec fn trim_start(s: Seq<char>) -> Seq<char>
    decreases s.len(),
{
    if s.len() > 0 && is_white_space(s[0]) {
        trim_start(s.drop_first())
    } else {
        s
    }
}

/// `s` without its trailing white space.
pub open spec fn trim_end(s: Seq<char>) -> Seq<char>
    decreases s.len(),
{
    if s.len() > 0 && is_white_space(s.last()) {
        trim_end(s.drop_last())
    } else {
        s
    }
}

/// `s` without leading and trailing white space (std `str::trim`).
pub open spec fn trim(s: Seq<char>) -> Seq<char> {
    trim_end(trim_start(s))
}

/// The index of the first character of `s[from..]` that is not white space.
pub fn skip_white_space(s: &[char], from: usize) -> (i: usize)
    requires
        from <= s@.len(),
    ensures
        from <= i <= s@.len(),
        trim_start(s@.subrange(from as int, s@.len() as int)) == s@.subrange(
            i as int,
            s@.len() as int,
        ),
        forall|k: int| from <= k < i ==> is_white_space(#[trigger] s@[k]),
{
    let mut i = from;
    while i < s.len() && is_white_space_char(s[i])
        invariant
            from <= i <= s@.len(),
            trim_start(s@.subrange(from as int, s@.len() as int)) == trim_start(
                s@.subrange(i as int, s@.len() as int),
            ),
            forall|k: int| from <= k < i ==> is_white_space(#[trigger] s@[k]),
        decreases s.len() - i,
    {
        assert(s@.subrange(i as int, s@.len() as int).drop_first() =~= s@.subrange(
            i + 1,
            s@.len() as int,
        ));
        i += 1;
    }
    i
}

/// The indices `(start, end)` with `s[start..end] == trim(s)`.
pub fn trim_bounds(s: &[char]) -> (r: (usize, usize))
    ensures
        r.0 <= r.1 <= s@.len(),
        s@.subrange(r.0 as int, r.1 as int) == trim(s@),
{
    let start = skip_white_space(s, 0);
    assert(s@.subrange(0, s@.len() as int) =~= s@);
    let mut end = s.len();
    while end > start && is_white_space_char(s[end - 1])
        invariant
            start <= end <= s@.len(),
            trim(s@) == trim_end(s@.subrange(start as int, end as int)),
        decreases end - start,
    {
        assert(s@.subrange(start as int, end as int).drop_last() =~= s@.subrange(
            start as int,
            end - 1,
        ));
        end -= 1;
    }
    (start, end)
}

/// std `str::trim`, on characters.
pub fn trim_chars(s: &[char]) -> (r: Vec<char>)
    ensures
        r@ == trim(s@),
{
    let (a, b) = trim_bounds(s);
    copy_range(s, a, b)
}

/// Whether `trim(s)` is empty.
pub fn is_blank(s: &[char]) -> (r: bool)
    ensures
        r == (trim(s@).len() == 0),
{
    let (a, b) = trim_bounds(s);
    a == b
}

// ------------------------------------------------------------------
// Searching
// ------------------------------------------------------------------

/// `needle` occurs in `hay` at index `i`.
pub open spec fn occurs_at(hay: Seq<char>, needle: Seq<char>, i: int) -> bool {
    0 <= i && i + needle.len() <= hay.len() && hay.subrange(i, i + needle.len()) == needle
}

/// `needle` occurs somewhere in `hay` (std `str::contains` with a `&str` pattern).
pub open spec fn has_sub(hay: Seq<char>, needle: Seq<char>) -> bool {
    exists|i: int| occurs_at(hay, needle, i)
}

/// The first index at or after `i` where `needle` occurs in `hay`.
pub open spec fn find_from(hay: Seq<char>, needle: Seq<char>, i: int) -> Option<int>
    decreases hay.len() + 1 - i,
{
    if i < 0 || i + needle.len() > hay.len() {
        None
    } else if occurs_at(hay, needle, i) {
        Some(i)
    } else {
        find_from(hay, needle, i + 1)
    }
}

/// The first index where `needle` occurs in `hay` (std `str::find`).
pub open spec fn first_occurrence(hay: Seq<char>, needle: Seq<char>) -> Option<int> {
    find_from(hay, needle, 0)
}

/// What `find_from` gives back is the least occurrence at or after `i`.
pub proof fn lemma_find_from(hay: Seq<char>, needle: Seq<char>, i: int)
    requires
        0 <= i,
    ensures
        find_from(hay, needle, i) matches Some(k) ==> i <= k && occurs_at(hay, needle, k) && (
        forall|j: int| i <= j < k ==> !occurs_at(hay, needle, j)),
        find_from(hay, needle, i) is None ==> forall|j: int| i <= j ==> !occurs_at(hay, needle, j),
    decreases hay.len() + 1 - i,
{
    if i + needle.len() > hay.len() {
    } else if occurs_at(hay, needle, i) {
    } else {
        lemma_find_from(hay, needle, i + 1);
    }
}

/// `has_sub` holds exactly when there is a first occurrence.
pub proof fn lemma_has_sub_first(hay: Seq<char>, needle: Seq<char>)
    ensures
        has_sub(hay, needle) <==> first_occurrence(hay, needle) is Some,
{
    lemma_find_from(hay, needle, 0);
    if let Some(k) = first_occurrence(hay, needle) {
        assert(occurs_at(hay, needle, k));
    }
}

/// Whether `needle` occurs in `hay` at index `i`.
pub fn matches_at(hay: &[char], needle: &[char], i: usize) -> (r: bool)
    ensures
        r == occurs_at(hay@, needle@, i as int),
{
    if i > hay.len() || needle.len() > hay.len() - i {
        return false;
    }
    let mut k: usize = 0;
    while k < needle.len()
        invariant
            i + needle.len() <= hay.len(),
            k <= needle@.len(),
            forall|j: int| 0 <= j < k ==> hay@[i + j] == needle@[j],
        decreases needle.len() - k,
    {
        if hay[i + k] != needle[k] {
            assert(hay@.subrange(i as int, i + needle@.len())[k as int] != needle@[k as int]);
            return false;
        }
        k += 1;
    }
    assert(hay@.subrange(i as int, i + needle@.len()) =~= needle@);
    true
}

/// std `str::find` on characters.
pub fn find_chars(hay: &[char], needle: &[char]) -> (r: Option<usize>)
    ensures
        r matches Some(k) ==> first_occurrence(hay@, needle@) == Some(k as int),
        r is None ==> first_occurrence(hay@, needle@) is None,
{
    if needle.len() > hay.len() {
        return None;
    }
    let last = hay.len() - needle.len();
    let mut i: usize = 0;
    loop
        invariant
            last + needle@.len() == hay@.len(),
            i <= last,
            find_from(hay@, needle@, 0) == find_from(hay@, needle@, i as int),
        decreases last - i,
    {
        if matches_at(hay, needle, i) {
            return Some(i);
        }
        if i == last {
            assert(find_from(hay@, needle@, i + 1) is None);
            return None;
        }
        i += 1;
    }
}

/// std `str::contains` on characters.
pub fn contains_chars(hay: &[char], needle: &[char]) -> (r: bool)
    ensures
        r == has_sub(hay@, needle@),
{
    proof {
        lemma_has_sub_first(hay@, needle@);
    }
    find_chars(hay, needle).is_some()
}

/// std `str::contains` for a pattern given as a string slice.
pub fn contains_str(hay: &[char], needle: &str) -> (r: bool)
    ensures
        r == has_sub(hay@, needle@),
{
    let n = chars_of(needle);
    contains_chars(hay, n.as_slice())
}

/// std `str::starts_with` for a pattern given as a string slice.
pub fn starts_with_str(s: &[char], prefix: &str) -> (r: bool)
    ensures
        r == prefix@.is_prefix_of(s@),
{
    let p = chars_of(prefix);
    let r = matches_at(s, p.as_slice(), 0);
    proof {
        if r {
            assert(prefix@ =~= s@.subrange(0, prefix@.len() as int));
        } else if prefix@.is_prefix_of(s@) {
            assert(occurs_at(s@, p@, 0));
        }
    }
    r
}

/// std `str::ends_with` for a pattern given as a string slice.
pub fn ends_with_str(s: &[char], suffix: &str) -> (r: bool)
    ensures
        r == suffix@.is_suffix_of(s@),
{
    let p = chars_of(suffix);
    if p.len() > s.len() {
        return false;
    }
    let r = matches_at(s, p.as_slice(), s.len() - p.len());
    proof {
        if r {
            assert(suffix@ =~= s@.subrange(s@.len() - suffix@.len(), s@.len() as int));
        } else if suffix@.is_suffix_of(s@) {
            assert(occurs_at(s@, p@, s@.len() - p@.len()));
        }
    }
    r
}

/// The two parts around the first occurrence of `sep` (std `str::split_once`).
pub open spec fn split_once(s: Seq<char>, sep: Seq<char>) -> Option<(Seq<char>, Seq<char>)> {
    match first_occurrence(s, sep) {
        Some(i) => Some((s.subrange(0, i), s.subrange(i + sep.len(), s.len() as int))),
        None => None,
    }
}

/// std `str::split_once` for a separator given as a string slice.
pub fn split_once_str(s: &[char], sep: &str) -> (r: Option<(Vec<char>, Vec<char>)>)
    ensures
        match r {
            Some(p) => split_once(s@, sep@) == Some((p.0@, p.1@)),
            None => split_once(s@, sep@) is None,
        },
{
    let p = chars_of(sep);
    match find_chars(s, p.as_slice()) {
        Some(i) => {
            proof {
                lemma_find_from(s@, p@, 0);
                assert(occurs_at(s@, p@, i as int));
                assert(i + p@.len() <= s@.len());
            }
            let n = s.len();
            assert(i + p.len() <= n);
            let a = copy_range(s, 0, i);
            let b = copy_range(s, i + p.len(), n);
            Some((a, b))
        },
        None => None,
    }
}

/// `s` with every non-overlapping occurrence of `pat`, from the left,
/// replaced by `with` (std `str::replace`).
pub open spec fn replace_all(s: Seq<char>, pat: Seq<char>, with: Seq<char>) -> Seq<char>
    decreases s.len(),
{
    if pat.len() == 0 || s.len() < pat.len() {
        s
    } else if s.subrange(0, pat.len() as int) == pat {
        with + replace_all(s.subrange(pat.len() as int, s.len() as int), pat, with)
    } else {
        seq![s[0]] + replace_all(s.drop_first(), pat, with)
    }
}

/// std `str::replace` with a non-empty pattern.
pub fn replace_chars(s: &[char], pat: &[char], with: &[char]) -> (r: Vec<char>)
    requires
        pat@.len() > 0,
    ensures
        r@ == replace_all(s@, pat@, with@),
{
    let mut r: Vec<char> = Vec::new();
    let mut i: usize = 0;
    assert(s@.subrange(0, s@.len() as int) =~= s@);
    assert(r@ + replace_all(s@, pat@, with@) =~= replace_all(s@, pat@, with@));
    while i < s.len()
        invariant
            pat@.len() > 0,
            i <= s@.len(),
            r@ + replace_all(s@.subrange(i as int, s@.len() as int), pat@, with@) == replace_all(
                s@,
                pat@,
                with@,
            ),
        decreases s.len() - i,
    {
        let ghost rest = s@.subrange(i as int, s@.len() as int);
        if matches_at(s, pat, i) {
            assert(rest.subrange(0, pat@.len() as int) =~= s@.subrange(i as int, i + pat@.len()));
            assert(rest.subrange(pat@.len() as int, rest.len() as int) =~= s@.subrange(
                i + pat@.len(),
                s@.len() as int,
            ));
            append_chars(&mut r, with);
            i += pat.len();
            assert(r@ + replace_all(s@.subrange(i as int, s@.len() as int), pat@, with@) =~= (
            r@.subrange(0, r@.len() - with@.len()) + with@) + replace_all(
                s@.subrange(i as int, s@.len() as int),
                pat@,
                with@,
            ));
        } else {
            proof {
                if rest.len() >= pat@.len() {
                    assert(rest.subrange(0, pat@.len() as int) =~= s@.subrange(
                        i as int,
                        i + pat@.len(),
                    ));
                }
                assert(rest.drop_first() =~= s@.subrange(i + 1, s@.len() as int));
                if rest.len() < pat@.len() {
                    assert(replace_all(rest, pat@, with@) == rest);
                    assert(replace_all(rest.drop_first(), pat@, with@) == rest.drop_first());
                    assert(rest =~= seq![rest[0]] + rest.drop_first());
                }
            }
            r.push(s[i]);
            i += 1;
        }
    }
    assert(s@.subrange(s@.len() as int, s@.len() as int) =~= Seq::<char>::empty());
    assert(r@ + Seq::<char>::empty() =~= r@);
    r
}

} // verus!

verus! {

/// `s` with `pat` removed from its start as many times as it occurs there
/// (std `str::trim_start_matches`).
pub open spec fn strip_prefixes(s: Seq<char>, pat: Seq<char>) -> Seq<char>
    decreases s.len(),
{
    if pat.len() > 0 && pat.is_prefix_of(s) {
        strip_prefixes(s.subrange(pat.len() as int, s.len() as int), pat)
    } else {
        s
    }
}

/// `s` with `pat` removed from its end as many times as it occurs there
/// (std `str::trim_end_matches`).
pub open spec fn strip_suffixes(s: Seq<char>, pat: Seq<char>) -> Seq<char>
    decreases s.len(),
{
    if pat.len() > 0 && pat.is_suffix_of(s) {
        strip_suffixes(s.subrange(0, s.len() - pat.len()), pat)
    } else {
        s
    }
}

/// std `str::trim_start_matches` for a pattern given as a string slice.
pub fn strip_prefixes_str(s: &[char], pat: &str) -> (r: Vec<char>)
    ensures
        r@ == strip_prefixes(s@, pat@),
{
    let p = chars_of(pat);
    let n = s.len();
    let mut i: usize = 0;
    assert(s@.subrange(0, n as int) =~= s@);
    if p.len() == 0 {
        return copy_range(s, 0, n);
    }
    while matches_at(s, p.as_slice(), i)
        invariant
            i <= n,
            n == s@.len(),
            p@ == pat@,
            p@.len() > 0,
            strip_prefixes(s@, pat@) == strip_prefixes(s@.subrange(i as int, n as int), pat@),
        decreases n - i,
    {
        let ghost rest = s@.subrange(i as int, n as int);
        assert(rest.subrange(0, p@.len() as int) =~= s@.subrange(i as int, i + p@.len()));
        assert(rest.subrange(p@.len() as int, rest.len() as int) =~= s@.subrange(
            i + p@.len(),
            n as int,
        ));
        i += p.len();
    }
    proof {
        let rest = s@.subrange(i as int, n as int);
        if p@.is_prefix_of(rest) {
            assert(rest.subrange(0, p@.len() as int) =~= s@.subrange(i as int, i + p@.len()));
            assert(occurs_at(s@, p@, i as int));
        }
    }
    copy_range(s, i, n)
}

/// std `str::trim_end_matches` for a pattern given as a string slice.
pub fn strip_suffixes_str(s: &[char], pat: &str) -> (r: Vec<char>)
    ensures
        r@ == strip_suffixes(s@, pat@),
{
    let p = chars_of(pat);
    let n = s.len();
    let mut j: usize = n;
    assert(s@.subrange(0, n as int) =~= s@);
    if p.len() == 0 {
        return copy_range(s, 0, n);
    }
    while j >= p.len() && matches_at(s, p.as_slice(), j - p.len())
        invariant
            j <= n,
            n == s@.len(),
            p@ == pat@,
            p@.len() > 0,
            strip_suffixes(s@, pat@) == strip_suffixes(s@.subrange(0, j as int), pat@),
        decreases j,
    {
        let ghost rest = s@.subrange(0, j as int);
        assert(rest.subrange(rest.len() - p@.len(), rest.len() as int) =~= s@.subrange(
            j - p@.len(),
            j as int,
        ));
        assert(rest.subrange(0, rest.len() - p@.len()) =~= s@.subrange(0, j - p@.len()));
        j -= p.len();
    }
    proof {
        let rest = s@.subrange(0, j as int);
        if p@.is_suffix_of(rest) {
            assert(rest.subrange(rest.len() - p@.len(), rest.len() as int) =~= s@.subrange(
                j - p@.len(),
                j as int,
            ));
            assert(occurs_at(s@, p@, j - p@.len()));
        }
    }
    copy_range(s, 0, j)
}

/// The result of std `str::to_uppercase` on a text (Unicode upper case
/// mapping, which may change the length).
pub uninterp spec fn upper_case(s: Seq<char>) -> Seq<char>;

/// The result of std `str::to_lowercase` on a text.
pub uninterp spec fn lower_case(s: Seq<char>) -> Seq<char>;

/// Calls std `str::to_uppercase`; the result is named `upper_case` of the
/// argument's characters and nothing more is claimed of it.
#[verifier::external_body]
pub(crate) fn to_upper(s: &[char]) -> (r: Vec<char>)
    ensures
        r@ == upper_case(s@),
{
    let t: String = s.iter().collect();
    t.to_uppercase().chars().collect()
}

/// Calls std `str::to_lowercase`; the result is named `lower_case` of the
/// argument's characters and nothing more is claimed of it.
#[verifier::external_body]
pub(crate) fn to_lower(s: &[char]) -> (r: Vec<char>)
    ensures
        r@ == lower_case(s@),
{
    let t: String = s.iter().collect();
    t.to_lowercase().chars().collect()
}

} // verus!

verus! {

/// The lines joined with `'\n'` between them (std `[String]::join("\n")`).
pub open spec fn join_lines(lines: Seq<Seq<char>>) -> Seq<char>
    decreases lines.len(),
{
    if lines.len() == 0 {
        Seq::empty()
    } else if lines.len() == 1 {
        lines[0]
    } else {
        join_lines(lines.drop_last()) + seq!['\n'] + lines.last()
    }
}

/// The characters of each line, as a sequence of texts.
pub open spec fn lines_view(lines: Seq<Vec<char>>) -> Seq<Seq<char>> {
    lines.map_values(|l: Vec<char>| l@)
}

/// std `join("\n")` on lines held as character vectors.
pub fn join_line_chars(lines: &Vec<Vec<char>>) -> (r: Vec<char>)
    ensures
        r@ == join_lines(lines_view(lines@)),
{
    let mut r: Vec<char> = Vec::new();
    let mut i: usize = 0;
    assert(lines_view(lines@).subrange(0, 0) =~= Seq::<Seq<char>>::empty());
    while i < lines.len()
        invariant
            i <= lines@.len(),
            r@ == join_lines(lines_view(lines@).subrange(0, i as int)),
        decreases lines.len() - i,
    {
        let ghost before = lines_view(lines@).subrange(0, i as int);
        let ghost after = lines_view(lines@).subrange(0, i + 1);
        assert(after.drop_last() =~= before);
        assert(after.last() == lines@[i as int]@);
        if i > 0 {
            r.push('\n');
        }
        append_chars(&mut r, lines[i].as_slice());
        proof {
            if i == 0 {
                assert(r@ =~= lines@[0]@);
            }
        }
        i += 1;
    }
    assert(lines_view(lines@).subrange(0, lines@.len() as int) =~= lines_view(lines@));
    r
}

} // verus!

verus! {

/// The characters of an optional text.
pub open spec fn opt_text(o: Option<String>) -> Option<Seq<char>> {
    match o {
        Some(s) => Some(s@),
        None => None,
    }
}

/// The characters of an optional character vector.
pub open spec fn opt_chars(o: Option<Vec<char>>) -> Option<Seq<char>> {
    match o {
        Some(v) => Some(v@),
        None => None,
    }
}

} // verus!

verus! {

/// Whether `p` is a prefix of `s`.
pub fn starts_with_chars(s: &[char], p: &[char]) -> (r: bool)
    ensures
        r == p@.is_prefix_of(s@),
{
    let r = matches_at(s, p, 0);
    proof {
        if r {
            assert(p@ =~= s@.subrange(0, p@.len() as int));
        } else if p@.is_prefix_of(s@) {
            assert(occurs_at(s@, p@, 0));
        }
    }
    r
}

} // verus!

verus! {

/// The end of the word at `i`: the first white space at or after `i`, or
/// the end of `s`.
pub open spec fn word_end(s: Seq<char>, i: int) -> int
    decreases s.len() - i,
{
    if i < 0 || i >= s.len() {
        s.len() as int
    } else if is_white_space(s[i]) {
        i
    } else {
        word_end(s, i + 1)
    }
}

/// A word ends after it starts, within the text.
pub proof fn lemma_word_end(s: Seq<char>, i: int)
    requires
        0 <= i < s.len(),
    ensures
        i <= word_end(s, i) <= s.len(),
        !is_white_space(s[i]) ==> i < word_end(s, i),
    decreases s.len() - i,
{
    if !is_white_space(s[i]) {
        if i + 1 < s.len() {
            lemma_word_end(s, i + 1);
        } else {
            assert(word_end(s, i + 1) == s.len());
        }
    }
}

/// The words of `s[i..]`: its maximal runs of characters that are not
/// white space, in order.
pub open spec fn words_from(s: Seq<char>, i: int) -> Seq<Seq<char>>
    decreases s.len() - i,
{
    if i < 0 || i >= s.len() {
        Seq::empty()
    } else if is_white_space(s[i]) {
        words_from(s, i + 1)
    } else {
        proof {
            lemma_word_end(s, i);
        }
        seq![s.subrange(i, word_end(s, i))] + words_from(s, word_end(s, i))
    }
}

/// The words of `s` (std `str::split_whitespace`).
pub open spec fn words(s: Seq<char>) -> Seq<Seq<char>> {
    words_from(s, 0)
}

/// std `str::split_whitespace`, collected.
pub fn split_words(s: &[char]) -> (r: Vec<Vec<char>>)
    ensures
        lines_view(r@) == words(s@),
{
    let n = s.len();
    let mut r: Vec<Vec<char>> = Vec::new();
    let mut i: usize = 0;
    assert(lines_view(r@) + words_from(s@, 0) =~= words(s@));
    while i < n
        invariant
            n == s@.len(),
            i <= n,
            lines_view(r@) + words_from(s@, i as int) == words(s@),
        decreases n - i,
    {
        if is_white_space_char(s[i]) {
            i += 1;
        } else {
            let mut j = i;
            while j < n && !is_white_space_char(s[j])
                invariant
                    n == s@.len(),
                    i <= j <= n,
                    word_end(s@, i as int) == word_end(s@, j as int),
                decreases n - j,
            {
                j += 1;
            }
            proof {
                lemma_word_end(s@, i as int);
            }
            let w = copy_range(s, i, j);
            let ghost before = r@;
            r.push(w);
            assert(lines_view(r@) =~= lines_view(before).push(w@));
            assert(lines_view(r@) + words_from(s@, j as int) =~= lines_view(before) + words_from(
                s@,
                i as int,
            ));
            i = j;
        }
    }
    assert(words_from(s@, n as int) =~= Seq::<Seq<char>>::empty());
    assert(lines_view(r@) + Seq::<Seq<char>>::empty() =~= lines_view(r@));
    r
}

} // verus!
