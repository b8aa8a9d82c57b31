//! Plain-text transforms the crawler needs: whitespace trimming, line
//! joining, HTML tag stripping, substring search and decimal parsing.
//!
//! All logic here works on `char` sequences; the contracts are stated
//! over `Seq<char>` views.

use vstd::prelude::*;

verus! {

/// The characters Rust's `char::is_whitespace` accepts: the Unicode
/// `White_Space` property.
pub open spec fn is_ws(c: char) -> bool {
    c == ' ' || c == '\t' || c == '\n' || c == '\r'
        || c as u32 == 0x0b || c as u32 == 0x0c
        || c as u32 == 0x85 || c as u32 == 0xa0 || c as u32 == 0x1680
        || (0x2000 <= (c as u32) && (c as u32) <= 0x200a)
        || c as u32 == 0x2028 || c as u32 == 0x2029
        || c as u32 == 0x202f || c as u32 == 0x205f || c as u32 == 0x3000
}

pub open spec fn is_ascii_char(c: char) -> bool {
    (c as u32) < 128
}

/// Whether `c` has the Unicode `White_Space` property.
pub fn is_whitespace_char(c: char) -> (r: bool)
    ensures
        r == is_ws(c),
{
    let u = c as u32;
    u == 0x20 || u == 0x09 || u == 0x0a || u == 0x0d || u == 0x0b || u == 0x0c
        || u == 0x85 || u == 0xa0 || u == 0x1680
        || (0x2000 <= u && u <= 0x200a)
        || u == 0x2028 || u == 0x2029 || u == 0x202f || u == 0x205f || u == 0x3000
}

pub open spec fn trim_start_seq(s: Seq<char>) -> Seq<char>
    decreases s.len(),
{
    if s.len() > 0 && is_ws(s[0]) {
        trim_start_seq(s.drop_first())
    } else {
        s
    }
}

pub open spec fn trim_end_seq(s: Seq<char>) -> Seq<char>
    decreases s.len(),
{
    if s.len() > 0 && is_ws(s[s.len() - 1]) {
        trim_end_seq(s.drop_last())
    } else {
        s
    }
}

/// What `str::trim` leaves: the sequence with leading and trailing
/// whitespace removed.
pub open spec fn trim_seq(s: Seq<char>) -> Seq<char> {
    trim_end_seq(trim_start_seq(s))
}

/// The characters of `s`, in order.
pub fn str_chars(s: &str) -> (r: Vec<char>)
    ensures
        r@ == s@,
{
    let n = s.unicode_len();
    let mut r: Vec<char> = Vec::new();
    let mut i: usize = 0;
    while i < n
        invariant
            i <= n,
            n == s@.len(),
            r@ == s@.take(i as int),
        decreases n - i,
    {
        r.push(s.get_char(i));
        i += 1;
        assert(r@ =~= s@.take(i as int));
    }
    assert(s@.take(n as int) =~= s@);
    r
}

/// Relies on `String: FromIterator<char>`: collecting characters
/// yields the string of exactly those characters in order.
#[verifier::external_body]
pub fn chars_to_string(v: &Vec<char>) -> (r: String)
    ensures
        r@ == v@,
{
    v.iter().collect()
}

/// Trims leading and trailing whitespace off a string.
pub fn trim_string(s: &str) -> (r: String)
    ensures
        r@ == trim_seq(s@),
{
    let v = str_chars(s);
    let t = trim_chars(&v);
    chars_to_string(&t)
}

/// The position of the last occurrence of `c` in `s`, or `-1`.
pub open spec fn last_pos(s: Seq<char>, c: char) -> int
    decreases s.len(),
{
    if s.len() == 0 {
        -1
    } else if s.last() == c {
        s.len() - 1
    } else {
        last_pos(s.drop_last(), c)
    }
}

pub proof fn lemma_last_pos_at(s: Seq<char>, c: char, k: int)
    requires
        0 <= k < s.len(),
        s[k] == c,
        forall|j: int| k < j < s.len() ==> s[j] != c,
    ensures
        last_pos(s, c) == k,
    decreases s.len(),
{
    if k < s.len() - 1 {
        lemma_last_pos_at(s.drop_last(), c, k);
    }
}

pub proof fn lemma_last_pos_absent(s: Seq<char>, c: char)
    requires
        forall|j: int| 0 <= j < s.len() ==> s[j] != c,
    ensures
        last_pos(s, c) == -1,
    decreases s.len(),
{
    if s.len() > 0 {
        lemma_last_pos_absent(s.drop_last(), c);
    }
}

/// The part of `s` after the last occurrence of `c`, or all of `s`
/// when `c` does not occur.
pub fn suffix_after_last(s: &str, c: char) -> (r: String)
    ensures
        r@ == if last_pos(s@, c) >= 0 {
            s@.skip(last_pos(s@, c) + 1)
        } else {
            s@
        },
{
    let v = str_chars(s);
    let n = v.len();
    let mut k = n;
    while k > 0
        invariant
            k <= n,
            n == v@.len(),
            v@ == s@,
            forall|j: int| k <= j < n ==> v@[j] != c,
        decreases k,
    {
        if v[k - 1] == c {
            proof {
                lemma_last_pos_at(s@, c, k - 1);
            }
            let mut out: Vec<char> = Vec::new();
            let mut i = k;
            assert(out@ =~= v@.subrange(k as int, k as int));
            while i < n
                invariant
                    1 <= k <= i <= n,
                    n == v@.len(),
                    v@ == s@,
                    out@ == v@.subrange(k as int, i as int),
                decreases n - i,
            {
                out.push(v[i]);
                i += 1;
                assert(out@ =~= v@.subrange(k as int, i as int));
            }
            assert(out@ =~= s@.skip(k as int));
            return chars_to_string(&out);
        }
        k -= 1;
    }
    proof {
        lemma_last_pos_absent(s@, c);
    }
    chars_to_string(&v)
}

/// The plain text of an HTML fragment: lines trimmed and joined, tag
/// spans removed, non-ASCII dropped.
pub open spec fn stripped_text(s: Seq<char>) -> Seq<char> {
    strip_tags_seq(join_trimmed_lines(s), false)
}

/// Trims leading and trailing whitespace from a character sequence.
pub fn trim_chars(v: &Vec<char>) -> (r: Vec<char>)
    ensures
        r@ == trim_seq(v@),
{
    let n = v.len();
    let mut start: usize = 0;
    assert(v@.skip(0) =~= v@);
    while start < n && is_whitespace_char(v[start])
        invariant
            start <= n,
            n == v@.len(),
            trim_start_seq(v@) == trim_start_seq(v@.skip(start as int)),
            forall|j: int| 0 <= j < start ==> is_ws(v@[j]),
        decreases n - start,
    {
        assert(v@.skip(start as int).drop_first() =~= v@.skip(start as int + 1));
        start += 1;
    }
    assert(trim_start_seq(v@) == v@.skip(start as int)) by {
        if start < n {
            assert(!is_ws(v@.skip(start as int)[0]));
        } else {
            assert(v@.skip(start as int) =~= Seq::<char>::empty());
        }
    }
    let mut end: usize = n;
    while end > start && is_whitespace_char(v[end - 1])
        invariant
            start <= end <= n,
            n == v@.len(),
            trim_start_seq(v@) == v@.skip(start as int),
            trim_end_seq(v@.skip(start as int))
                == trim_end_seq(v@.subrange(start as int, end as int)),
        decreases end,
    {
        assert(v@.subrange(start as int, end as int).drop_last()
            =~= v@.subrange(start as int, end as int - 1));
        end -= 1;
    }
    assert(trim_end_seq(v@.subrange(start as int, end as int))
        == v@.subrange(start as int, end as int)) by {
        if end > start {
            let t = v@.subrange(start as int, end as int);
            assert(t[t.len() - 1] == v@[end - 1]);
        } else {
            assert(v@.subrange(start as int, end as int) =~= Seq::<char>::empty());
        }
    }
    let mut r: Vec<char> = Vec::new();
    let mut i: usize = start;
    while i < end
        invariant
            start <= i <= end <= n,
            n == v@.len(),
            r@ == v@.subrange(start as int, i as int),
        decreases end - i,
    {
        r.push(v[i]);
        i += 1;
        assert(r@ =~= v@.subrange(start as int, i as int));
    }
    r
}

/// The lines of `s` (split at `'\n'`), each trimmed, joined without a
/// separator. `cur` is the part of the current line already read.
pub open spec fn join_lines_from(s: Seq<char>, cur: Seq<char>) -> Seq<char>
    decreases s.len(),
{
    if s.len() == 0 {
        trim_seq(cur)
    } else if s[0] == '\n' {
        trim_seq(cur) + join_lines_from(s.drop_first(), Seq::empty())
    } else {
        join_lines_from(s.drop_first(), cur.push(s[0]))
    }
}

pub open spec fn join_trimmed_lines(s: Seq<char>) -> Seq<char> {
    join_lines_from(s, Seq::empty())
}

/// The text of `s` outside `<`...`>` spans, with non-ASCII characters
/// dropped. `in_tag` says whether the scan starts inside a span.
pub open spec fn strip_tags_seq(s: Seq<char>, in_tag: bool) -> Seq<char>
    decreases s.len(),
{
    if s.len() == 0 {
        Seq::empty()
    } else {
        let rest = s.drop_first();
        if in_tag {
            if s[0] == '>' {
                strip_tags_seq(rest, false)
            } else {
                strip_tags_seq(rest, true)
            }
        } else if s[0] == '<' {
            strip_tags_seq(rest, true)
        } else if is_ascii_char(s[0]) {
            seq![s[0]] + strip_tags_seq(rest, false)
        } else {
            strip_tags_seq(rest, false)
        }
    }
}

/// Reduces an HTML fragment to plain text: lines are trimmed and
/// joined, every `<`...`>` span is removed, and non-ASCII characters
/// are dropped.
pub fn delete_tags(html: String) -> (r: String)
    ensures
        r@ == stripped_text(html@),
{
    let chars = str_chars(html.as_str());
    let s = Ghost(chars@);

    let mut joined: Vec<char> = Vec::new();
    let mut cur: Vec<char> = Vec::new();
    let mut i: usize = 0;
    assert(s@.skip(0) =~= s@);
    while i < chars.len()
        invariant
            i <= chars.len(),
            chars@ == s@,
            join_trimmed_lines(s@) == joined@ + join_lines_from(s@.skip(i as int), cur@),
        decreases chars.len() - i,
    {
        let c = chars[i];
        assert(s@.skip(i as int)[0] == c);
        assert(s@.skip(i as int).drop_first() =~= s@.skip(i as int + 1));
        if c == '\n' {
            let mut t = trim_chars(&cur);
            joined.append(&mut t);
            cur.clear();
        } else {
            cur.push(c);
            assert(cur@ =~= cur@);
        }
        i += 1;
    }
    assert(s@.skip(chars@.len() as int) =~= Seq::<char>::empty());
    let mut t = trim_chars(&cur);
    joined.append(&mut t);
    assert(joined@ == join_trimmed_lines(s@));

    let j = Ghost(joined@);
    let mut out: Vec<char> = Vec::new();
    let mut in_tag = false;
    let mut k: usize = 0;
    assert(j@.skip(0) =~= j@);
    while k < joined.len()
        invariant
            k <= joined.len(),
            joined@ == j@,
            strip_tags_seq(j@, false) == out@ + strip_tags_seq(j@.skip(k as int), in_tag),
        decreases joined.len() - k,
    {
        let c = joined[k];
        assert(j@.skip(k as int)[0] == c);
        assert(j@.skip(k as int).drop_first() =~= j@.skip(k as int + 1));
        if in_tag {
            if c == '>' {
                in_tag = false;
            }
        } else if c == '<' {
            in_tag = true;
        } else if (c as u32) < 128 {
            out.push(c);
            assert(out@ =~= out@.drop_last() + seq![c]);
        }
        k += 1;
    }
    assert(j@.skip(joined@.len() as int) =~= Seq::<char>::empty());
    assert(out@ == strip_tags_seq(join_trimmed_lines(s@), false));
    chars_to_string(&out)
}

/// Character-wise equality of two string slices.
pub fn str_eq(a: &str, b: &str) -> (r: bool)
    ensures
        r == (a@ == b@),
{
    let va = str_chars(a);
    let vb = str_chars(b);
    if va.len() != vb.len() {
        return false;
    }
    let mut i: usize = 0;
    while i < va.len()
        invariant
            va@ == a@,
            vb@ == b@,
            va@.len() == vb@.len(),
            i <= va@.len(),
            forall|j: int| 0 <= j < i ==> va@[j] == vb@[j],
        decreases va@.len() - i,
    {
        if va[i] != vb[i] {
            return false;
        }
        i += 1;
    }
    assert(a@ =~= b@);
    true
}

/// `needle` occurs in `hay` starting at position `i`.
pub open spec fn matches_at(hay: Seq<char>, needle: Seq<char>, i: int) -> bool {
    0 <= i && i + needle.len() <= hay.len()
        && hay.subrange(i, i + needle.len()) == needle
}

/// `needle` occurs somewhere in `hay`.
pub open spec fn contains_seq(hay: Seq<char>, needle: Seq<char>) -> bool {
    exists|i: int| matches_at(hay, needle, i)
}

/// Whether `needle` occurs as a contiguous substring of `hay`.
pub fn contains_substring(hay: &str, needle: &str) -> (r: bool)
    ensures
        r == contains_seq(hay@, needle@),
{
    let h = str_chars(hay);
    let n = str_chars(needle);
    if n.len() == 0 {
        assert(matches_at(hay@, needle@, 0)) by {
            assert(hay@.subrange(0, 0) =~= needle@);
        }
        return true;
    }
    if n.len() > h.len() {
        assert(!contains_seq(hay@, needle@)) by {
            assert(forall|i: int| !matches_at(hay@, needle@, i));
        }
        return false;
    }
    let mut i: usize = 0;
    while i <= h.len() - n.len()
        invariant
            h@ == hay@,
            n@ == needle@,
            n@.len() <= h@.len(),
            1 <= n@.len(),
            i <= h@.len() - n@.len() + 1,
            forall|p: int| 0 <= p < i ==> !matches_at(hay@, needle@, p),
        decreases h@.len() - n@.len() + 1 - i,
    {
        let mut j: usize = 0;
        let mut all_eq = true;
        while j < n.len()
            invariant
                h@ == hay@,
                n@ == needle@,
                h@.len() <= usize::MAX,
                i + n@.len() <= h@.len(),
                j <= n@.len(),
                all_eq ==> h@.subrange(i as int, i as int + j as int)
                    == n@.subrange(0, j as int),
                !all_eq ==> !matches_at(hay@, needle@, i as int),
            decreases n.len() - j,
        {
            if h[i + j] != n[j] {
                if all_eq {
                    assert(h@.subrange(i as int, i as int + n@.len() as int)[j as int]
                        == h@[i + j]);
                    assert(!matches_at(hay@, needle@, i as int)) by {
                        if matches_at(hay@, needle@, i as int) {
                            assert(h@.subrange(i as int, i as int + n@.len() as int)
                                =~= n@);
                        }
                    }
                }
                all_eq = false;
            } else {
                if all_eq {
                    assert(h@.subrange(i as int, i as int + j as int + 1)
                        =~= h@.subrange(i as int, i as int + j as int).push(h@[i + j]));
                    assert(n@.subrange(0, j as int + 1)
                        =~= n@.subrange(0, j as int).push(n@[j as int]));
                }
            }
            j += 1;
        }
        if all_eq {
            assert(n@.subrange(0, n@.len() as int) =~= n@);
            assert(matches_at(hay@, needle@, i as int));
            return true;
        }
        i += 1;
    }
    assert(forall|p: int| !matches_at(hay@, needle@, p));
    false
}

} // verus!
