//! Finding a character in a text, and cutting a text at a character.

use vstd::prelude::*;
use vstd::string::StringExecFns;

verus! {

/// The index of the first `c` of `s` from `from` on, or the length of `s`
/// where there is none.
pub open spec fn first_index_of(s: Seq<char>, c: char, from: int) -> int
    decreases s.len() - from,
{
    if from >= s.len() {
        s.len() as int
    } else if s[from] == c {
        from
    } else {
        first_index_of(s, c, from + 1)
    }
}

/// The index of the last `c` among the first `upto` characters of `s`, or
/// -1 where there is none.
pub open spec fn last_index_of(s: Seq<char>, c: char, upto: int) -> int
    decreases upto,
{
    if upto <= 0 {
        -1
    } else if s[upto - 1] == c {
        upto - 1
    } else {
        last_index_of(s, c, upto - 1)
    }
}

/// The parts of `s` between its `c`s, from the left. A text without `c` is
/// one part; two `c`s side by side have an empty part between them.
pub open spec fn split(s: Seq<char>, c: char) -> Seq<Seq<char>>
    decreases s.len(),
{
    let cut = first_index_of(s, c, 0);
    if cut >= s.len() {
        seq![s]
    } else {
        proof {
            lemma_first_index_of(s, c, 0);
        }
        seq![s.subrange(0, cut)] + split(s.subrange(cut + 1, s.len() as int), c)
    }
}

/// Where the first `c` is, and that there is none before it.
pub proof fn lemma_first_index_of(s: Seq<char>, c: char, from: int)
    requires
        0 <= from <= s.len(),
    ensures
        from <= first_index_of(s, c, from) <= s.len(),
        first_index_of(s, c, from) < s.len() ==> s[first_index_of(s, c, from)] == c,
        forall|i: int| from <= i < first_index_of(s, c, from) ==> s[i] != c,
    decreases s.len() - from,
{
    if from < s.len() && s[from] != c {
        lemma_first_index_of(s, c, from + 1);
    }
}

/// Where the last `c` is, and that there is none behind it.
pub proof fn lemma_last_index_of(s: Seq<char>, c: char, upto: int)
    requires
        0 <= upto <= s.len(),
    ensures
        -1 <= last_index_of(s, c, upto) < upto,
        last_index_of(s, c, upto) >= 0 ==> s[last_index_of(s, c, upto)] == c,
        forall|i: int| last_index_of(s, c, upto) < i < upto ==> s[i] != c,
    decreases upto,
{
    if upto > 0 && s[upto - 1] != c {
        lemma_last_index_of(s, c, upto - 1);
    }
}

/// The first `c` of the rest of a text is where the first `c` of the text
/// from there on is.
pub proof fn lemma_first_index_of_rest(s: Seq<char>, c: char, start: int, from: int)
    requires
        0 <= start <= from <= s.len(),
    ensures
        first_index_of(s.subrange(start, s.len() as int), c, from - start) == first_index_of(
            s,
            c,
            from,
        ) - start,
    decreases s.len() - from,
{
    let rest = s.subrange(start, s.len() as int);
    if from < s.len() {
        assert(rest[from - start] == s[from]);
        if s[from] != c {
            lemma_first_index_of_rest(s, c, start, from + 1);
        }
    }
}

/// The index of the first `c` of `text` from `from` on, or the length of
/// `text`, in characters, where there is none.
pub fn find_char(text: &str, c: char, from: usize) -> (r: usize)
    requires
        from <= text@.len(),
    ensures
        r == first_index_of(text@, c, from as int),
        from <= r <= text@.len(),
{
    let len = text.unicode_len();
    let mut i: usize = from;
    while i < len && text.get_char(i) != c
        invariant
            from <= i <= len == text@.len(),
            first_index_of(text@, c, from as int) == first_index_of(text@, c, i as int),
        decreases len - i,
    {
        i += 1;
    }
    i
}

/// The index of the last `c` of `text`, if there is one.
pub fn find_last_char(text: &str, c: char) -> (r: Option<usize>)
    ensures
        match r {
            Some(i) => i == last_index_of(text@, c, text@.len() as int),
            None => last_index_of(text@, c, text@.len() as int) == -1,
        },
{
    let len = text.unicode_len();
    let mut i: usize = len;
    while i > 0
        invariant
            i <= len == text@.len(),
            last_index_of(text@, c, len as int) == last_index_of(text@, c, i as int),
        decreases i,
    {
        if text.get_char(i - 1) == c {
            return Some(i - 1);
        }
        i -= 1;
    }
    None
}

/// The parts of `text` between its `c`s, from the left: see [`split`].
pub fn split_text(text: &str, c: char) -> (r: Vec<String>)
    ensures
        r.deep_view() == split(text@, c),
{
    let len = text.unicode_len();
    let mut parts: Vec<String> = Vec::new();
    let mut start: usize = 0;
    let ghost all = split(text@, c);
    assert(text@.subrange(0, len as int) =~= text@);
    assert(parts.deep_view() + split(text@.subrange(0, len as int), c) =~= all);
    loop
        invariant
            start <= len == text@.len(),
            all == split(text@, c),
            parts.deep_view() + split(text@.subrange(start as int, len as int), c) == all,
        decreases len - start,
    {
        let ghost rest = text@.subrange(start as int, len as int);
        let cut = find_char(text, c, start);
        proof {
            lemma_first_index_of_rest(text@, c, start as int, start as int);
            assert(rest.subrange(0, cut - start) =~= text@.subrange(start as int, cut as int));
        }
        let part = String::from_str(text.substring_char(start, cut));
        let ghost before = parts.deep_view();
        parts.push(part);
        assert(parts.deep_view() =~= before.push(part@));
        if cut >= len {
            assert(rest =~= text@.subrange(start as int, cut as int));
            assert(before + seq![rest] =~= before.push(part@));
            return parts;
        }
        proof {
            assert(rest.subrange(cut - start + 1, rest.len() as int) =~= text@.subrange(
                cut + 1,
                len as int,
            ));
            assert(before + (seq![rest.subrange(0, cut - start)] + split(
                text@.subrange(cut + 1, len as int),
                c,
            )) =~= before.push(part@) + split(text@.subrange(cut + 1, len as int), c));
        }
        start = cut + 1;
    }
}

} // verus!
