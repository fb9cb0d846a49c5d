use vstd::prelude::*;
use vstd::string::StrSliceExecFns;

verus! {

// Character-level helpers shared by the command construction and the output
// formatting: placeholder substitution, whitespace trimming, line splitting
// and NUL stripping.

/// Whether a character counts as whitespace, exactly as `char::is_whitespace`
/// answers it (the Unicode `White_Space` property).
pub uninterp spec fn whitespace_char(c: char) -> bool;

/// Relies on char::is_whitespace: the answer is a function of the character
/// alone (the Unicode `White_Space` property).
pub assume_specification[ char::is_whitespace ](c: char) -> (r: bool)
    ensures
        r == whitespace_char(c),
;

/// Relies on String::push: appends one character at the end of the string.
#[verifier::external_body]
pub(crate) fn push_char(s: &mut String, c: char)
    ensures
        final(s)@ == old(s)@.push(c),
{
    s.push(c);
}

/// The characters of `s`, collected into a vector.
pub fn str_to_chars(s: &str) -> (r: Vec<char>)
    ensures
        r@ == s@,
{
    let n = s.unicode_len();
    let mut r: Vec<char> = Vec::new();
    let mut i: usize = 0;
    while i < n
        invariant
            n == s@.len(),
            i <= n,
            r@ == s@.subrange(0, i as int),
        decreases n - i,
    {
        r.push(s.get_char(i));
        i = i + 1;
        proof {
            assert(r@ =~= s@.subrange(0, i as int));
        }
    }
    proof {
        assert(r@ =~= s@);
    }
    r
}

/// `template` with every occurrence of the placeholder `%s` replaced by
/// `value`, scanning left to right.
pub open spec fn spec_substitute(template: Seq<char>, value: Seq<char>) -> Seq<char>
    decreases template.len(),
{
    if template.len() >= 2 && template[0] == '%' && template[1] == 's' {
        value + spec_substitute(template.skip(2), value)
    } else if template.len() > 0 {
        seq![template[0]] + spec_substitute(template.skip(1), value)
    } else {
        Seq::empty()
    }
}

/// Replaces every occurrence of `%s` in `template` with `value`.
pub fn substitute(template: &str, value: &str) -> (r: String)
    ensures
        r@ == spec_substitute(template@, value@),
{
    let t = str_to_chars(template);
    let n = t.len();
    let mut out = String::new();
    let mut i: usize = 0;
    proof {
        assert(template@.skip(0) =~= template@);
        assert(out@ + spec_substitute(template@, value@) =~= spec_substitute(template@, value@));
    }
    while i < n
        invariant
            t@ == template@,
            n == t@.len(),
            i <= n,
            spec_substitute(template@, value@) == out@ + spec_substitute(
                template@.skip(i as int),
                value@,
            ),
        decreases n - i,
    {
        if t[i] == '%' && i + 1 < n && t[i + 1] == 's' {
            out.append(value);
            proof {
                assert(template@.skip(i as int)[0] == '%');
                assert(template@.skip(i as int)[1] == 's');
                assert(template@.skip(i as int).skip(2) =~= template@.skip(i + 2));
                assert(spec_substitute(template@, value@) =~= out@ + spec_substitute(
                    template@.skip(i + 2),
                    value@,
                ));
            }
            i = i + 2;
        } else {
            push_char(&mut out, t[i]);
            proof {
                assert(template@.skip(i as int)[0] == template@[i as int]);
                assert(template@.skip(i as int).skip(1) =~= template@.skip(i + 1));
                assert(spec_substitute(template@, value@) =~= out@ + spec_substitute(
                    template@.skip(i + 1),
                    value@,
                ));
            }
            i = i + 1;
        }
    }
    proof {
        assert(template@.skip(n as int) =~= Seq::<char>::empty());
        assert(out@ =~= spec_substitute(template@, value@));
    }
    out
}

/// `s` with its leading whitespace characters removed.
pub open spec fn spec_trim_start(s: Seq<char>) -> Seq<char>
    decreases s.len(),
{
    if s.len() > 0 && whitespace_char(s[0]) {
        spec_trim_start(s.drop_first())
    } else {
        s
    }
}

/// `s` with its trailing whitespace characters removed.
pub open spec fn spec_trim_end(s: Seq<char>) -> Seq<char>
    decreases s.len(),
{
    if s.len() > 0 && whitespace_char(s[s.len() - 1]) {
        spec_trim_end(s.drop_last())
    } else {
        s
    }
}

/// `s` with whitespace removed from both ends.
pub open spec fn spec_trim(s: Seq<char>) -> Seq<char> {
    spec_trim_end(spec_trim_start(s))
}

/// The characters of `s` between the first index at or after which no leading
/// whitespace remains and the last such index from the right.
pub fn trim_chars(s: &Vec<char>) -> (r: Vec<char>)
    ensures
        r@ == spec_trim(s@),
{
    let n = s.len();
    let mut start: usize = 0;
    proof {
        assert(s@.skip(0) =~= s@);
    }
    while start < n && s[start].is_whitespace()
        invariant
            n == s@.len(),
            start <= n,
            spec_trim_start(s@) == spec_trim_start(s@.skip(start as int)),
        decreases n - start,
    {
        proof {
            assert(s@.skip(start as int)[0] == s@[start as int]);
            assert(s@.skip(start as int).drop_first() =~= s@.skip(start + 1));
        }
        start = start + 1;
    }
    proof {
        if start < n {
            assert(s@.skip(start as int)[0] == s@[start as int]);
        }
        assert(spec_trim_start(s@) == s@.skip(start as int));
    }
    let mut end: usize = n;
    while end > start && s[end - 1].is_whitespace()
        invariant
            n == s@.len(),
            start <= end <= n,
            spec_trim_end(s@.skip(start as int)) == spec_trim_end(
                s@.subrange(start as int, end as int),
            ),
        decreases end,
    {
        proof {
            let t = s@.subrange(start as int, end as int);
            assert(t[t.len() - 1] == s@[end - 1]);
            assert(t.drop_last() =~= s@.subrange(start as int, end - 1));
        }
        end = end - 1;
    }
    proof {
        let t = s@.subrange(start as int, end as int);
        if end > start {
            assert(t[t.len() - 1] == s@[end - 1]);
        }
        assert(spec_trim_end(t) == t);
        assert(s@.skip(start as int) =~= s@.subrange(start as int, n as int));
    }
    let mut r: Vec<char> = Vec::new();
    let mut i: usize = start;
    while i < end
        invariant
            n == s@.len(),
            start <= i <= end <= n,
            r@ == s@.subrange(start as int, i as int),
        decreases end - i,
    {
        r.push(s[i]);
        i = i + 1;
        proof {
            assert(r@ =~= s@.subrange(start as int, i as int));
        }
    }
    r
}

/// The position of the first occurrence of `sep` in `s`, or `s.len()` if
/// there is none.
pub open spec fn spec_first_index(s: Seq<char>, sep: char) -> nat
    decreases s.len(),
{
    if s.len() == 0 {
        0
    } else if s[0] == sep {
        0
    } else {
        1 + spec_first_index(s.drop_first(), sep)
    }
}

proof fn lemma_first_index_at(t: Seq<char>, sep: char, m: int)
    requires
        0 <= m <= t.len(),
        forall|k: int| 0 <= k < m ==> t[k] != sep,
        m < t.len() ==> t[m] == sep,
    ensures
        spec_first_index(t, sep) == m,
    decreases m,
{
    if m == 0 {
    } else {
        assert(t[0] != sep);
        assert forall|k: int| 0 <= k < m - 1 implies t.drop_first()[k] != sep by {
            assert(t.drop_first()[k] == t[k + 1]);
        }
        assert(m - 1 < t.drop_first().len() ==> t.drop_first()[m - 1] == t[m]);
        lemma_first_index_at(t.drop_first(), sep, m - 1);
    }
}

/// `s` cut at every occurrence of `sep`: the pieces between separators, in
/// order, the separators themselves dropped.  A separator at either end, or
/// two adjacent ones, contribute empty pieces.
pub open spec fn spec_split(s: Seq<char>, sep: char) -> Seq<Seq<char>>
    decreases s.len(),
{
    let i = spec_first_index(s, sep);
    if i >= s.len() {
        seq![s]
    } else {
        seq![s.take(i as int)] + spec_split(s.skip(i as int + 1), sep)
    }
}

/// Cuts `s` at every occurrence of `sep`.
pub fn split_char(s: &Vec<char>, sep: char) -> (r: Vec<Vec<char>>)
    ensures
        r.deep_view() == spec_split(s@, sep),
{
    let n = s.len();
    let mut r: Vec<Vec<char>> = Vec::new();
    let mut pos: usize = 0;
    proof {
        assert(s@.skip(0) =~= s@);
        assert(r.deep_view() =~= Seq::<Seq<char>>::empty());
        assert(r.deep_view() + spec_split(s@, sep) =~= spec_split(s@, sep));
    }
    loop
        invariant_except_break
            n == s@.len(),
            pos <= n,
            spec_split(s@, sep) == r.deep_view() + spec_split(s@.skip(pos as int), sep),
        ensures
            r.deep_view() == spec_split(s@, sep),
        decreases n - pos,
    {
        let mut j: usize = pos;
        while j < n && s[j] != sep
            invariant
                n == s@.len(),
                pos <= j <= n,
                forall|k: int| pos <= k < j ==> s@[k] != sep,
            decreases n - j,
        {
            j = j + 1;
        }
        let mut piece: Vec<char> = Vec::new();
        let mut k: usize = pos;
        while k < j
            invariant
                n == s@.len(),
                pos <= k <= j <= n,
                piece@ == s@.subrange(pos as int, k as int),
            decreases j - k,
        {
            piece.push(s[k]);
            k = k + 1;
            proof {
                assert(piece@ =~= s@.subrange(pos as int, k as int));
            }
        }
        proof {
            let t = s@.skip(pos as int);
            assert forall|m: int| 0 <= m < j - pos implies t[m] != sep by {
                assert(t[m] == s@[pos + m]);
            }
            assert(j - pos < t.len() ==> t[j - pos] == s@[j as int]);
            lemma_first_index_at(t, sep, j - pos);
            assert(piece@ =~= t.take(j - pos));
        }
        let ghost r0 = r.deep_view();
        r.push(piece);
        proof {
            assert(piece.deep_view() =~= piece@);
            assert(r.deep_view() =~~= r0.push(piece@));
        }
        if j == n {
            proof {
                let t = s@.skip(pos as int);
                assert(spec_first_index(t, sep) == t.len());
                assert(spec_split(t, sep) == seq![t]);
                assert(piece@ =~= t);
                assert(r.deep_view() =~~= spec_split(s@, sep));
            }
            break ;
        } else {
            proof {
                let t = s@.skip(pos as int);
                assert(spec_split(t, sep) == seq![t.take(j - pos)] + spec_split(
                    t.skip(j - pos + 1),
                    sep,
                ));
                assert(t.skip(j - pos + 1) =~= s@.skip(j + 1));
                assert(r.deep_view() + spec_split(s@.skip(j + 1), sep) =~~= spec_split(s@, sep));
            }
            pos = j + 1;
        }
    }
    r
}

/// `s` with every NUL character removed.
pub open spec fn spec_strip_nul(s: Seq<char>) -> Seq<char>
    decreases s.len(),
{
    if s.len() == 0 {
        Seq::empty()
    } else if s[0] == '\u{0}' {
        spec_strip_nul(s.drop_first())
    } else {
        seq![s[0]] + spec_strip_nul(s.drop_first())
    }
}

/// Removes every NUL character from `s`.
pub fn strip_nul(s: &Vec<char>) -> (r: Vec<char>)
    ensures
        r@ == spec_strip_nul(s@),
{
    let n = s.len();
    let mut r: Vec<char> = Vec::new();
    let mut i: usize = 0;
    proof {
        assert(s@.skip(0) =~= s@);
        assert(r@ + spec_strip_nul(s@) =~= spec_strip_nul(s@));
    }
    while i < n
        invariant
            n == s@.len(),
            i <= n,
            spec_strip_nul(s@) == r@ + spec_strip_nul(s@.skip(i as int)),
        decreases n - i,
    {
        proof {
            assert(s@.skip(i as int)[0] == s@[i as int]);
            assert(s@.skip(i as int).drop_first() =~= s@.skip(i + 1));
        }
        if s[i] != '\u{0}' {
            r.push(s[i]);
            proof {
                assert(spec_strip_nul(s@) =~= r@ + spec_strip_nul(s@.skip(i + 1)));
            }
        } else {
            proof {
                assert(spec_strip_nul(s@) =~= r@ + spec_strip_nul(s@.skip(i + 1)));
            }
        }
        i = i + 1;
    }
    proof {
        assert(s@.skip(n as int) =~= Seq::<char>::empty());
        assert(r@ =~= spec_strip_nul(s@));
    }
    r
}

/// Builds a string from a vector of characters.
pub fn chars_to_string(s: &Vec<char>) -> (r: String)
    ensures
        r@ == s@,
{
    let n = s.len();
    let mut r = String::new();
    let mut i: usize = 0;
    while i < n
        invariant
            n == s@.len(),
            i <= n,
            r@ == s@.subrange(0, i as int),
        decreases n - i,
    {
        push_char(&mut r, s[i]);
        i = i + 1;
        proof {
            assert(r@ =~= s@.subrange(0, i as int));
        }
    }
    proof {
        assert(r@ =~= s@);
    }
    r
}

} // verus!
