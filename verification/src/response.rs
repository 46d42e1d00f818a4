use vstd::prelude::*;

verus! {

/// Line feed.
pub const NL: u8 = 10;

/// Colon, the header separator.
pub const COLON: u8 = 58;

/// Slash.
pub const SLASH: u8 = 47;

/// The pieces of `s` between line feeds, as `str::split('\n')` yields them
/// (there is always at least one piece).
pub open spec fn split_lines(s: Seq<u8>) -> Seq<Seq<u8>>
    decreases s.len(),
{
    if s.len() == 0 {
        seq![Seq::<u8>::empty()]
    } else {
        let rest = split_lines(s.drop_last());
        if s.last() == NL {
            rest.push(Seq::<u8>::empty())
        } else {
            rest.update(rest.len() - 1, rest.last().push(s.last()))
        }
    }
}

/// Index of the first occurrence of byte `b` in `s`.
pub open spec fn first_index(s: Seq<u8>, b: u8) -> Option<int>
    decreases s.len(),
{
    if s.len() == 0 {
        None
    } else if s[0] == b {
        Some(0)
    } else {
        match first_index(s.drop_first(), b) {
            Some(i) => Some(i + 1),
            None => None,
        }
    }
}

/// `s` holds `//` at index `j`.
pub open spec fn double_slash_at(s: Seq<u8>, j: int) -> bool {
    s[j] == SLASH && s[j + 1] == SLASH
}

/// Index of the first occurrence of `//` in `s`.
pub open spec fn first_double_slash(s: Seq<u8>) -> Option<int>
    decreases s.len(),
{
    if s.len() < 2 {
        None
    } else if double_slash_at(s, 0) {
        Some(0)
    } else {
        match first_double_slash(s.drop_first()) {
            Some(i) => Some(i + 1),
            None => None,
        }
    }
}

/// A UTF-8 continuation byte (`0b10xx_xxxx`).
pub open spec fn is_continuation(b: u8) -> bool {
    0x80 <= b < 0xC0
}

/// `s` without its last character (UTF-8): the trailing continuation bytes
/// and the byte that leads them go; an empty `s` stays empty.
pub open spec fn pop_last_char(s: Seq<u8>) -> Seq<u8>
    decreases s.len(),
{
    if s.len() == 0 {
        s
    } else if is_continuation(s.last()) {
        pop_last_char(s.drop_last())
    } else {
        s.drop_last()
    }
}

/// The header that a line declares: the text before its first colon, and the
/// text from two bytes after that colon with its last character dropped.
/// `None` for a line without a colon.
pub open spec fn header_of(line: Seq<u8>) -> Option<(Seq<u8>, Seq<u8>)> {
    match first_index(line, COLON) {
        Some(n) => Some((line.take(n), pop_last_char(line.skip(n + 2)))),
        None => None,
    }
}

/// A header line can be split: after the colon comes at least one more
/// character, and it is a single byte (so the value starts on a character
/// boundary).
pub open spec fn header_line_ok(line: Seq<u8>) -> bool {
    match first_index(line, COLON) {
        Some(n) => n + 1 < line.len() && line[n + 1] < 0x80,
        None => true,
    }
}

/// The value of header `key` among `lines`: the last line that declares it wins.
pub open spec fn lookup(lines: Seq<Seq<u8>>, key: Seq<u8>) -> Option<Seq<u8>>
    decreases lines.len(),
{
    if lines.len() == 0 {
        None
    } else {
        match header_of(lines.last()) {
            Some(kv) => if kv.0 == key {
                Some(kv.1)
            } else {
                lookup(lines.drop_last(), key)
            },
            None => lookup(lines.drop_last(), key),
        }
    }
}

/// The header lines of a response: every line after the first two.
pub open spec fn header_lines(s: Seq<u8>) -> Seq<Seq<u8>> {
    split_lines(s).skip(2)
}

proof fn lemma_first_index(s: Seq<u8>, b: u8, i: int)
    requires
        0 <= i <= s.len(),
        i < s.len() ==> s[i] == b,
        forall|j: int| 0 <= j < i ==> s[j] != b,
    ensures
        first_index(s, b) == (if i < s.len() { Some(i) } else { None::<int> }),
    decreases s.len(),
{
    if s.len() > 0 && i > 0 {
        assert forall|j: int| 0 <= j < i - 1 implies s.drop_first()[j] != b by {
            assert(s[j + 1] != b);
        }
        lemma_first_index(s.drop_first(), b, i - 1);
    }
}

proof fn lemma_first_double_slash(s: Seq<u8>, i: int)
    requires
        0 <= i,
        i + 1 <= s.len(),
        i + 1 < s.len() ==> double_slash_at(s, i),
        forall|j: int| 0 <= j < i ==> !#[trigger] double_slash_at(s, j),
    ensures
        first_double_slash(s) == (if i + 1 < s.len() { Some(i) } else { None::<int> }),
    decreases s.len(),
{
    if s.len() >= 2 && i > 0 {
        assert forall|j: int| 0 <= j < i - 1 implies !#[trigger] double_slash_at(s.drop_first(), j) by {
            assert(!double_slash_at(s, j + 1));
        }
        lemma_first_double_slash(s.drop_first(), i - 1);
    }
}

/// Index (within the whole of `s`) of the first `b` in `s[lo..hi]`.
pub fn find_byte(s: &[u8], lo: usize, hi: usize, b: u8) -> (r: Option<usize>)
    requires
        lo <= hi <= s@.len(),
    ensures
        r matches Some(p) ==> lo <= p < hi && s@[p as int] == b && first_index(
            s@.subrange(lo as int, hi as int),
            b,
        ) == Some(p - lo),
        r is None ==> first_index(s@.subrange(lo as int, hi as int), b) is None,
{
    let ghost t = s@.subrange(lo as int, hi as int);
    let mut i = lo;
    while i < hi
        invariant
            lo <= i <= hi <= s@.len(),
            t == s@.subrange(lo as int, hi as int),
            forall|j: int| 0 <= j < i - lo ==> t[j] != b,
        decreases hi - i,
    {
        if s[i] == b {
            proof {
                lemma_first_index(t, b, i - lo);
            }
            return Some(i);
        }
        i = i + 1;
    }
    proof {
        lemma_first_index(t, b, t.len() as int);
    }
    None
}

/// Index (within the whole of `s`) of the first `//` in `s[lo..hi]`.
pub fn find_double_slash(s: &[u8], lo: usize, hi: usize) -> (r: Option<usize>)
    requires
        lo <= hi <= s@.len(),
    ensures
        r matches Some(p) ==> lo <= p && p + 1 < hi && first_double_slash(
            s@.subrange(lo as int, hi as int),
        ) == Some(p - lo),
        r is None ==> first_double_slash(s@.subrange(lo as int, hi as int)) is None,
{
    let ghost t = s@.subrange(lo as int, hi as int);
    if hi - lo < 2 {
        return None;
    }
    let mut i = lo;
    while i + 1 < hi
        invariant
            lo <= i < hi <= s@.len(),
            hi - lo >= 2,
            t == s@.subrange(lo as int, hi as int),
            forall|j: int| 0 <= j < i - lo ==> !#[trigger] double_slash_at(t, j),
        decreases hi - i,
    {
        if s[i] == SLASH && s[i + 1] == SLASH {
            proof {
                lemma_first_double_slash(t, i - lo);
            }
            return Some(i);
        }
        i = i + 1;
    }
    proof {
        lemma_first_double_slash(t, i - lo);
    }
    None
}

/// End of `s[lo..hi]` once its last character is dropped.
pub fn pop_char_end(s: &[u8], lo: usize, hi: usize) -> (e: usize)
    requires
        lo <= hi <= s@.len(),
    ensures
        lo <= e <= hi,
        s@.subrange(lo as int, e as int) == pop_last_char(s@.subrange(lo as int, hi as int)),
{
    let mut e = hi;
    while e > lo && 0x80 <= s[e - 1] && s[e - 1] < 0xC0
        invariant
            lo <= e <= hi <= s@.len(),
            pop_last_char(s@.subrange(lo as int, e as int)) == pop_last_char(
                s@.subrange(lo as int, hi as int),
            ),
        decreases e,
    {
        assert(s@.subrange(lo as int, e as int).drop_last() =~= s@.subrange(lo as int, e - 1));
        e = e - 1;
    }
    if e > lo {
        assert(s@.subrange(lo as int, e as int).drop_last() =~= s@.subrange(lo as int, e - 1));
        e - 1
    } else {
        e
    }
}

/// Start and end of each line of `s`.
pub fn line_bounds(s: &[u8]) -> (b: Vec<(usize, usize)>)
    ensures
        b@.len() == split_lines(s@).len(),
        forall|j: int|
            #![trigger b@[j]]
            0 <= j < b@.len() ==> b@[j].0 <= b@[j].1 <= s@.len() && s@.subrange(
                b@[j].0 as int,
                b@[j].1 as int,
            ) == split_lines(s@)[j],
{
    let n = s.len();
    let mut b: Vec<(usize, usize)> = Vec::new();
    let mut start: usize = 0;
    let mut i: usize = 0;
    while i < n
        invariant
            n == s@.len(),
            start <= i <= n,
            b@.len() + 1 == split_lines(s@.take(i as int)).len(),
            s@.subrange(start as int, i as int) == split_lines(s@.take(i as int)).last(),
            forall|j: int|
                #![trigger b@[j]]
                0 <= j < b@.len() ==> b@[j].0 <= b@[j].1 <= i && s@.subrange(
                    b@[j].0 as int,
                    b@[j].1 as int,
                ) == split_lines(s@.take(i as int))[j],
        decreases n - i,
    {
        let ghost prev = split_lines(s@.take(i as int));
        assert(s@.take(i + 1).drop_last() =~= s@.take(i as int));
        if s[i] == NL {
            b.push((start, i));
            start = i + 1;
            assert(s@.subrange(start as int, i + 1) =~= Seq::<u8>::empty());
        } else {
            assert(s@.subrange(start as int, i + 1) =~= s@.subrange(start as int, i as int).push(s@[i as int]));
        }
        i = i + 1;
    }
    b.push((start, n));
    assert(s@.take(n as int) =~= s@);
    b
}

} // verus!
