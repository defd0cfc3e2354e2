//! Character-level text handling shared by the daemon and the desktop client:
//! whitespace, tokens, line segments, joining, prefixes, substrings and trimming.
use vstd::prelude::*;
use vstd::string::*;

verus! {

/// Unicode `White_Space` characters, the set that `char::is_whitespace` accepts.
pub open spec fn is_ws(c: char) -> bool {
    ||| c == '\t' || c == '\n' || c == '\u{0B}' || c == '\u{0C}' || c == '\r' || c == ' '
    ||| c == '\u{85}' || c == '\u{A0}' || c == '\u{1680}'
    ||| ('\u{2000}' <= c && c <= '\u{200A}')
    ||| c == '\u{2028}' || c == '\u{2029}' || c == '\u{202F}' || c == '\u{205F}' || c == '\u{3000}'
}

/// Whether `c` is a whitespace character.
pub fn is_whitespace(c: char) -> (r: bool)
    ensures
        r == is_ws(c),
{
    c == '\t' || c == '\n' || c == '\u{0B}' || c == '\u{0C}' || c == '\r' || c == ' ' || c == '\u{85}'
        || c == '\u{A0}' || c == '\u{1680}' || ('\u{2000}' <= c && c <= '\u{200A}') || c == '\u{2028}'
        || c == '\u{2029}' || c == '\u{202F}' || c == '\u{205F}' || c == '\u{3000}'
}

/// The characters of `s`, in order.
pub fn chars_vec(s: &str) -> (v: Vec<char>)
    ensures
        v@ == s@,
{
    let n = s.unicode_len();
    let mut v: Vec<char> = Vec::new();
    let mut i: usize = 0;
    while i < n
        invariant
            n == s@.len(),
            i <= n,
            v@ == s@.subrange(0, i as int),
        decreases n - i,
    {
        let c = s.get_char(i);
        v.push(c);
        i = i + 1;
        assert(v@ =~= s@.subrange(0, i as int));
    }
    assert(v@ =~= s@);
    v
}

/// Whether two strings hold the same characters.
pub fn str_eq(a: &str, b: &str) -> (r: bool)
    ensures
        r == (a@ == b@),
{
    let n = a.unicode_len();
    let m = b.unicode_len();
    if n != m {
        return false;
    }
    let mut i: usize = 0;
    while i < n
        invariant
            n == a@.len(),
            m == b@.len(),
            n == m,
            i <= n,
            a@.subrange(0, i as int) == b@.subrange(0, i as int),
        decreases n - i,
    {
        if a.get_char(i) != b.get_char(i) {
            assert(a@[i as int] != b@[i as int]);
            return false;
        }
        i = i + 1;
        assert(a@.subrange(0, i as int) =~= a@.subrange(0, i as int - 1).push(a@[i as int - 1]));
        assert(b@.subrange(0, i as int) =~= b@.subrange(0, i as int - 1).push(b@[i as int - 1]));
    }
    assert(a@ =~= a@.subrange(0, n as int));
    assert(b@ =~= b@.subrange(0, n as int));
    true
}

/// A fresh string holding the characters of `s`.
pub fn to_string(s: &str) -> (r: String)
    ensures
        r@ == s@,
{
    s.to_owned()
}

/// The concatenation of `a` and `b`.
pub fn concat2(a: &str, b: &str) -> (r: String)
    ensures
        r@ == a@ + b@,
{
    let mut r = a.to_owned();
    r.append(b);
    r
}

/// The concatenation of `a`, `b` and `c`.
pub fn concat3(a: &str, b: &str, c: &str) -> (r: String)
    ensures
        r@ == a@ + b@ + c@,
{
    let mut r = a.to_owned();
    r.append(b);
    r.append(c);
    r
}

/// The views of a sequence of strings.
pub open spec fn strings_view(v: Seq<String>) -> Seq<Seq<char>> {
    v.map_values(|s: String| s@)
}

/// The element of an option as a sequence: one element or none.
pub open spec fn seq_of_option<A>(o: Option<A>) -> Seq<A> {
    match o {
        Some(a) => seq![a],
        None => Seq::empty(),
    }
}

/// Left-to-right scan that splits at whitespace: the words finished so far and
/// the word under way.
pub open spec fn ws_scan(s: Seq<char>) -> (Seq<Seq<char>>, Seq<char>)
    decreases s.len(),
{
    if s.len() == 0 {
        (Seq::empty(), Seq::empty())
    } else {
        let prev = ws_scan(s.drop_last());
        let c = s.last();
        if is_ws(c) {
            if prev.1.len() > 0 {
                (prev.0.push(prev.1), Seq::empty())
            } else {
                (prev.0, Seq::empty())
            }
        } else {
            (prev.0, prev.1.push(c))
        }
    }
}

/// The maximal runs of non-whitespace characters of `s`, in order
/// (what `str::split_whitespace` yields).
pub open spec fn split_ws(s: Seq<char>) -> Seq<Seq<char>> {
    let p = ws_scan(s);
    if p.1.len() > 0 {
        p.0.push(p.1)
    } else {
        p.0
    }
}

/// Every word of the scan is non-empty and holds no whitespace, and so does the
/// word under way.
pub proof fn lemma_ws_scan_words(s: Seq<char>)
    ensures
        forall|k: int|
            0 <= k < ws_scan(s).0.len() ==> #[trigger] ws_scan(s).0[k].len() > 0 && (forall|j: int|
                0 <= j < ws_scan(s).0[k].len() ==> !is_ws(#[trigger] ws_scan(s).0[k][j])),
        forall|j: int| 0 <= j < ws_scan(s).1.len() ==> !is_ws(#[trigger] ws_scan(s).1[j]),
    decreases s.len(),
{
    if s.len() > 0 {
        lemma_ws_scan_words(s.drop_last());
        let prev = ws_scan(s.drop_last());
        let c = s.last();
        if !is_ws(c) {
            assert forall|j: int| 0 <= j < ws_scan(s).1.len() implies !is_ws(#[trigger] ws_scan(s).1[j]) by {
                if j < prev.1.len() {
                    assert(ws_scan(s).1[j] == prev.1[j]);
                }
            }
        }
    }
}

/// The words that `split_ws` yields are non-empty and hold no whitespace.
pub proof fn lemma_split_ws_words(s: Seq<char>)
    ensures
        forall|k: int|
            0 <= k < split_ws(s).len() ==> #[trigger] split_ws(s)[k].len() > 0 && (forall|j: int|
                0 <= j < split_ws(s)[k].len() ==> !is_ws(#[trigger] split_ws(s)[k][j])),
{
    lemma_ws_scan_words(s);
    let p = ws_scan(s);
    assert forall|k: int| 0 <= k < split_ws(s).len() implies #[trigger] split_ws(s)[k].len() > 0
        && (forall|j: int| 0 <= j < split_ws(s)[k].len() ==> !is_ws(#[trigger] split_ws(s)[k][j])) by {
        if k < p.0.len() {
            assert(split_ws(s)[k] == p.0[k]);
        }
    }
}

/// The whitespace-separated words of `s`, in order.
pub fn split_whitespace(s: &str) -> (words: Vec<String>)
    ensures
        strings_view(words@) == split_ws(s@),
{
    let chars = chars_vec(s);
    let n = chars.len();
    let mut words: Vec<String> = Vec::new();
    let mut start: usize = 0;
    let mut in_word = false;
    let mut i: usize = 0;
    while i < n
        invariant
            n == s@.len(),
            chars@ == s@,
            i <= n,
            start <= i,
            strings_view(words@) == ws_scan(s@.subrange(0, i as int)).0,
            in_word ==> ws_scan(s@.subrange(0, i as int)).1 == s@.subrange(start as int, i as int),
            in_word ==> start < i,
            !in_word ==> ws_scan(s@.subrange(0, i as int)).1.len() == 0,
        decreases n - i,
    {
        let c = chars[i];
        let ghost pre = s@.subrange(0, i as int);
        assert(s@.subrange(0, i as int + 1).drop_last() =~= pre);
        assert(s@.subrange(0, i as int + 1).last() == c);
        if is_whitespace(c) {
            if in_word {
                let w = s.substring_char(start, i).to_owned();
                let ghost old_words = words@;
                words.push(w);
                assert(strings_view(words@) =~= strings_view(old_words).push(w@));
            }
            in_word = false;
        } else {
            if !in_word {
                start = i;
                in_word = true;
                assert(s@.subrange(start as int, i as int + 1) =~= Seq::<char>::empty().push(c));
            } else {
                assert(s@.subrange(start as int, i as int + 1) =~= s@.subrange(start as int, i as int).push(c));
            }
        }
        i = i + 1;
    }
    assert(s@.subrange(0, n as int) =~= s@);
    if in_word {
        let w = s.substring_char(start, n).to_owned();
        let ghost old_words = words@;
        words.push(w);
        assert(strings_view(words@) =~= strings_view(old_words).push(w@));
    }
    words
}

proof fn lemma_ws_scan_append_word(s: Seq<char>, w: Seq<char>)
    requires
        forall|j: int| 0 <= j < w.len() ==> !is_ws(#[trigger] w[j]),
    ensures
        ws_scan(s + w) == (ws_scan(s).0, ws_scan(s).1 + w),
    decreases w.len(),
{
    if w.len() == 0 {
        assert(s + w =~= s);
        assert(ws_scan(s).1 + w =~= ws_scan(s).1);
    } else {
        let w0 = w.drop_last();
        lemma_ws_scan_append_word(s, w0);
        assert((s + w).drop_last() =~= s + w0);
        assert((s + w).last() == w.last());
        assert(ws_scan(s).1 + w =~= (ws_scan(s).1 + w0).push(w.last()));
    }
}

/// Joining words with single spaces and splitting the result at whitespace
/// gives the words back, when they are non-empty and hold no whitespace.
pub proof fn lemma_split_joined_words(words: Seq<Seq<char>>)
    requires
        words.len() > 0,
        forall|k: int| 0 <= k < words.len() ==> #[trigger] words[k].len() > 0,
        forall|k: int, j: int| 0 <= k < words.len() && 0 <= j < words[k].len() ==> !is_ws(#[trigger] words[k][j]),
    ensures
        ws_scan(seq_join(words, " "@)) == (words.drop_last(), words.last()),
        split_ws(seq_join(words, " "@)) == words,
    decreases words.len(),
{
    reveal_strlit(" ");
    let w = words.last();
    assert forall|j: int| 0 <= j < w.len() implies !is_ws(#[trigger] w[j]) by {
        assert(words[words.len() - 1][j] == w[j]);
    }
    if words.len() == 1 {
        lemma_ws_scan_append_word(Seq::empty(), w);
        assert(Seq::<char>::empty() + w =~= w);
        assert(Seq::<char>::empty() + w =~= w);
        assert(words.drop_last() =~= Seq::<Seq<char>>::empty());
        assert(seq_join(words, " "@) == words[0]);
        assert(words[0] == w);
    } else {
        let init = words.drop_last();
        assert forall|k: int| 0 <= k < init.len() implies #[trigger] init[k].len() > 0 by {
            assert(init[k] == words[k]);
        }
        assert forall|k: int, j: int| 0 <= k < init.len() && 0 <= j < init[k].len() implies !is_ws(
            #[trigger] init[k][j],
        ) by {
            assert(init[k] == words[k]);
        }
        lemma_split_joined_words(init);
        let j0 = seq_join(init, " "@);
        let j1 = j0 + " "@;
        assert(j1 =~= j0.push(' '));
        assert(j1.drop_last() =~= j0);
        assert(j1.last() == ' ');
        assert(init.last() == words[words.len() - 2]);
        assert(init.last().len() > 0);
        assert(ws_scan(j1) == (init.drop_last().push(init.last()), Seq::<char>::empty()));
        assert(init.drop_last().push(init.last()) =~= init);
        lemma_ws_scan_append_word(j1, w);
        assert(Seq::<char>::empty() + w =~= w);
        assert(seq_join(words, " "@) == j1 + w);
    }
    assert(words.drop_last().push(words.last()) =~= words);
}

/// Left-to-right scan that splits at `'\n'`: the segments finished so far and
/// the segment under way.
pub open spec fn nl_scan(s: Seq<char>) -> (Seq<Seq<char>>, Seq<char>)
    decreases s.len(),
{
    if s.len() == 0 {
        (Seq::empty(), Seq::empty())
    } else {
        let prev = nl_scan(s.drop_last());
        let c = s.last();
        if c == '\n' {
            (prev.0.push(prev.1), Seq::empty())
        } else {
            (prev.0, prev.1.push(c))
        }
    }
}

/// The pieces of `s` between its `'\n'` characters, in order; there is one more
/// piece than there are newlines.
pub open spec fn newline_segments(s: Seq<char>) -> Seq<Seq<char>> {
    nl_scan(s).0.push(nl_scan(s).1)
}

/// The pieces of `text` between its newline characters.
pub fn split_newlines(text: &str) -> (segs: Vec<String>)
    ensures
        strings_view(segs@) == newline_segments(text@),
{
    let chars = chars_vec(text);
    let n = chars.len();
    let mut segs: Vec<String> = Vec::new();
    let mut start: usize = 0;
    let mut i: usize = 0;
    while i < n
        invariant
            n == text@.len(),
            chars@ == text@,
            i <= n,
            start <= i,
            strings_view(segs@) == nl_scan(text@.subrange(0, i as int)).0,
            nl_scan(text@.subrange(0, i as int)).1 == text@.subrange(start as int, i as int),
        decreases n - i,
    {
        let c = chars[i];
        let ghost pre = text@.subrange(0, i as int);
        assert(text@.subrange(0, i as int + 1).drop_last() =~= pre);
        assert(text@.subrange(0, i as int + 1).last() == c);
        if c == '\n' {
            let seg = text.substring_char(start, i).to_owned();
            let ghost old_segs = segs@;
            segs.push(seg);
            assert(strings_view(segs@) =~= strings_view(old_segs).push(seg@));
            start = i + 1;
            assert(text@.subrange(start as int, i as int + 1) =~= Seq::<char>::empty());
        } else {
            assert(text@.subrange(start as int, i as int + 1) =~= text@.subrange(start as int, i as int).push(c));
        }
        i = i + 1;
    }
    assert(text@.subrange(0, n as int) =~= text@);
    let seg = text.substring_char(start, n).to_owned();
    let ghost old_segs = segs@;
    segs.push(seg);
    assert(strings_view(segs@) =~= strings_view(old_segs).push(seg@));
    segs
}

/// The elements of `list` with `sep` between each two neighbours.
pub open spec fn seq_join(list: Seq<Seq<char>>, sep: Seq<char>) -> Seq<char>
    decreases list.len(),
{
    if list.len() == 0 {
        Seq::empty()
    } else if list.len() == 1 {
        list[0]
    } else {
        seq_join(list.drop_last(), sep) + sep + list.last()
    }
}

/// The strings `parts[from..]` joined with `sep` between each two neighbours.
pub fn join_from(parts: &Vec<String>, from: usize, sep: &str) -> (r: String)
    requires
        from <= parts@.len(),
    ensures
        r@ == seq_join(strings_view(parts@).subrange(from as int, parts@.len() as int), sep@),
{
    let ghost all = strings_view(parts@);
    let mut r = String::new();
    let mut i = from;
    assert(all.subrange(from as int, from as int) =~= Seq::<Seq<char>>::empty());
    while i < parts.len()
        invariant
            from <= i <= parts@.len(),
            all == strings_view(parts@),
            r@ == seq_join(all.subrange(from as int, i as int), sep@),
        decreases parts@.len() - i,
    {
        let ghost sub = all.subrange(from as int, i as int + 1);
        assert(sub.drop_last() =~= all.subrange(from as int, i as int));
        assert(sub.last() == parts@[i as int]@);
        if i != from {
            r.append(sep);
        } else {
            assert(sub.len() == 1);
        }
        r.append(parts[i].as_str());
        i = i + 1;
    }
    r
}

/// Whether `s` begins with `prefix`.
pub fn starts_with(s: &str, prefix: &str) -> (r: bool)
    ensures
        r == prefix@.is_prefix_of(s@),
{
    let n = s.unicode_len();
    let m = prefix.unicode_len();
    if m > n {
        return false;
    }
    let mut i: usize = 0;
    while i < m
        invariant
            n == s@.len(),
            m == prefix@.len(),
            m <= n,
            i <= m,
            forall|j: int| 0 <= j < i ==> prefix@[j] == s@[j],
        decreases m - i,
    {
        if s.get_char(i) != prefix.get_char(i) {
            return false;
        }
        i = i + 1;
    }
    true
}

/// Whether `pat` occurs in `s` as a contiguous run of characters.
pub open spec fn occurs_in(pat: Seq<char>, s: Seq<char>) -> bool {
    exists|k: int| 0 <= k && k + pat.len() <= s.len() && #[trigger] s.subrange(k, k + pat.len()) == pat
}

/// Whether `pat` occurs in `s`.
pub fn contains(s: &str, pat: &str) -> (r: bool)
    ensures
        r == occurs_in(pat@, s@),
{
    let sc = chars_vec(s);
    let pc = chars_vec(pat);
    let n = sc.len();
    let m = pc.len();
    if m > n {
        assert forall|k: int| 0 <= k && k + pat@.len() <= s@.len() implies #[trigger] s@.subrange(k, k + pat@.len()) != pat@ by {}
        return false;
    }
    let mut k: usize = 0;
    while k <= n - m
        invariant
            sc@ == s@,
            pc@ == pat@,
            n == s@.len(),
            m == pat@.len(),
            m <= n,
            k <= n - m + 1,
            forall|q: int| 0 <= q < k ==> #[trigger] s@.subrange(q, q + m) != pat@,
        decreases n - m + 1 - k,
    {
        let mut j: usize = 0;
        let mut same = true;
        while j < m
            invariant
                sc@ == s@,
                pc@ == pat@,
                n == s@.len(),
                m == pat@.len(),
                k + m <= n,
                j <= m,
                same == (forall|t: int| 0 <= t < j ==> s@[k + t] == pat@[t]),
            decreases m - j,
        {
            if sc[k + j] != pc[j] {
                same = false;
            }
            j = j + 1;
        }
        if same {
            assert(s@.subrange(k as int, k + m) =~= pat@);
            return true;
        }
        assert(s@.subrange(k as int, k + m) != pat@) by {
            let t = choose|t: int| 0 <= t < m && s@[k + t] != pat@[t];
            assert(s@.subrange(k as int, k + m)[t] == s@[k + t]);
        }
        k = k + 1;
    }
    false
}

/// The position of the last `c` in `s`, or -1 when `c` does not occur.
pub open spec fn last_index_of(s: Seq<char>, c: char) -> int
    decreases s.len(),
{
    if s.len() == 0 {
        -1
    } else if s.last() == c {
        s.len() - 1
    } else {
        last_index_of(s.drop_last(), c)
    }
}

/// `last_index_of` is -1 or the position of the last `c`.
pub proof fn lemma_last_index_bounds(s: Seq<char>, c: char)
    ensures
        -1 <= last_index_of(s, c) < s.len(),
        last_index_of(s, c) >= 0 ==> s[last_index_of(s, c)] == c,
        forall|j: int| last_index_of(s, c) < j < s.len() ==> s[j] != c,
    decreases s.len(),
{
    if s.len() > 0 && s.last() != c {
        lemma_last_index_bounds(s.drop_last(), c);
        assert forall|j: int| last_index_of(s, c) < j < s.len() implies s[j] != c by {
            if j < s.len() - 1 {
                assert(s[j] == s.drop_last()[j]);
            }
        }
    }
}

/// The position of the last `c` in `s`, if `c` occurs.
pub fn last_index(s: &str, c: char) -> (r: Option<usize>)
    ensures
        match r {
            Some(i) => i == last_index_of(s@, c),
            None => last_index_of(s@, c) == -1,
        },
{
    let chars = chars_vec(s);
    let mut i: usize = chars.len();
    proof {
        assert(s@.subrange(0, i as int) =~= s@);
    }
    while i > 0 && chars[i - 1] != c
        invariant
            chars@ == s@,
            i <= s@.len(),
            last_index_of(s@, c) == last_index_of(s@.subrange(0, i as int), c),
        decreases i,
    {
        assert(s@.subrange(0, i as int).drop_last() =~= s@.subrange(0, i as int - 1));
        i = i - 1;
    }
    if i == 0 {
        None
    } else {
        assert(s@.subrange(0, i as int).last() == c);
        Some(i - 1)
    }
}

/// `s` without its leading whitespace.
pub open spec fn trim_start_spec(s: Seq<char>) -> Seq<char>
    decreases s.len(),
{
    if s.len() > 0 && is_ws(s[0]) {
        trim_start_spec(s.drop_first())
    } else {
        s
    }
}

/// `s` without its trailing whitespace.
pub open spec fn trim_end_spec(s: Seq<char>) -> Seq<char>
    decreases s.len(),
{
    if s.len() > 0 && is_ws(s.last()) {
        trim_end_spec(s.drop_last())
    } else {
        s
    }
}

/// `s` without leading and trailing whitespace (what `str::trim` gives).
pub open spec fn trim_spec(s: Seq<char>) -> Seq<char> {
    trim_end_spec(trim_start_spec(s))
}

proof fn lemma_trim_start_skip(s: Seq<char>, i: int)
    requires
        0 <= i <= s.len(),
        forall|j: int| 0 <= j < i ==> is_ws(#[trigger] s[j]),
    ensures
        trim_start_spec(s) == trim_start_spec(s.subrange(i, s.len() as int)),
    decreases i,
{
    if i > 0 {
        assert(s.drop_first().subrange(i - 1, s.drop_first().len() as int) =~= s.subrange(i, s.len() as int));
        assert forall|j: int| 0 <= j < i - 1 implies is_ws(#[trigger] s.drop_first()[j]) by {
            assert(s.drop_first()[j] == s[j + 1]);
        }
        lemma_trim_start_skip(s.drop_first(), i - 1);
    } else {
        assert(s.subrange(0, s.len() as int) =~= s);
    }
}

proof fn lemma_trim_end_skip(s: Seq<char>, e: int)
    requires
        0 <= e <= s.len(),
        forall|j: int| e <= j < s.len() ==> is_ws(#[trigger] s[j]),
    ensures
        trim_end_spec(s) == trim_end_spec(s.subrange(0, e)),
    decreases s.len() - e,
{
    if e < s.len() {
        assert(s.drop_last().subrange(0, e) =~= s.subrange(0, e));
        assert forall|j: int| e <= j < s.drop_last().len() implies is_ws(#[trigger] s.drop_last()[j]) by {
            assert(s.drop_last()[j] == s[j]);
        }
        lemma_trim_end_skip(s.drop_last(), e);
    } else {
        assert(s.subrange(0, s.len() as int) =~= s);
    }
}

/// `s` without leading and trailing whitespace.
pub fn trim(s: &str) -> (r: String)
    ensures
        r@ == trim_spec(s@),
{
    let chars = chars_vec(s);
    let n = chars.len();
    let mut a: usize = 0;
    while a < n && is_whitespace(chars[a])
        invariant
            chars@ == s@,
            n == s@.len(),
            a <= n,
            forall|j: int| 0 <= j < a ==> is_ws(#[trigger] s@[j]),
        decreases n - a,
    {
        a = a + 1;
    }
    proof {
        lemma_trim_start_skip(s@, a as int);
    }
    let ghost t = s@.subrange(a as int, n as int);
    assert(a < n ==> !is_ws(t[0]));
    assert(trim_start_spec(t) == t) by {
        if t.len() > 0 {
            assert(!is_ws(t[0]));
        }
    }
    let mut e: usize = n;
    while e > a && is_whitespace(chars[e - 1])
        invariant
            chars@ == s@,
            n == s@.len(),
            a <= e <= n,
            t == s@.subrange(a as int, n as int),
            forall|j: int| e <= j < n ==> is_ws(#[trigger] s@[j]),
        decreases e - a,
    {
        e = e - 1;
    }
    proof {
        assert forall|j: int| e - a <= j < t.len() implies is_ws(#[trigger] t[j]) by {
            assert(t[j] == s@[a + j]);
        }
        lemma_trim_end_skip(t, e - a);
        let u = t.subrange(0, e - a);
        assert(u =~= s@.subrange(a as int, e as int));
        if u.len() > 0 {
            assert(u.last() == s@[e - 1]);
        }
    }
    s.substring_char(a, e).to_owned()
}

/// ASCII letters folded to lower case; every other character unchanged.
pub open spec fn ascii_fold(c: char) -> int {
    if 'A' <= c && c <= 'Z' {
        (c as u32) + 32
    } else {
        c as u32 as int
    }
}

/// Whether `a` and `b` are equal when ASCII letters are compared without case.
pub open spec fn eq_ignore_ascii_case_spec(a: Seq<char>, b: Seq<char>) -> bool {
    a.len() == b.len() && forall|i: int| 0 <= i < a.len() ==> #[trigger] ascii_fold(a[i]) == ascii_fold(b[i])
}

/// Whether `a` and `b` are equal, comparing ASCII letters without case.
pub fn eq_ignore_ascii_case(a: &str, b: &str) -> (r: bool)
    ensures
        r == eq_ignore_ascii_case_spec(a@, b@),
{
    let ac = chars_vec(a);
    let bc = chars_vec(b);
    if ac.len() != bc.len() {
        return false;
    }
    let mut i: usize = 0;
    while i < ac.len()
        invariant
            ac@ == a@,
            bc@ == b@,
            ac@.len() == bc@.len(),
            i <= ac@.len(),
            forall|j: int| 0 <= j < i ==> #[trigger] ascii_fold(a@[j]) == ascii_fold(b@[j]),
        decreases ac@.len() - i,
    {
        let x = ac[i];
        let y = bc[i];
        let fx: u32 = if 'A' <= x && x <= 'Z' { (x as u32) + 32 } else { x as u32 };
        let fy: u32 = if 'A' <= y && y <= 'Z' { (y as u32) + 32 } else { y as u32 };
        if fx != fy {
            assert(ascii_fold(a@[i as int]) != ascii_fold(b@[i as int]));
            return false;
        }
        i = i + 1;
    }
    true
}

/// What `str::to_lowercase` gives for a string: a function of the string alone.
pub uninterp spec fn unicode_lowercase(s: Seq<char>) -> Seq<char>;

/// Calls `str::to_lowercase`; its result is named `unicode_lowercase` of the
/// argument. Nothing more is claimed of the Unicode case mapping.
#[verifier::external_body]
pub(crate) fn to_lowercase(s: &str) -> (r: String)
    ensures
        r@ == unicode_lowercase(s@),
{
    s.to_lowercase()
}

/// What `String::from_utf8_lossy` gives for a byte string: a function of the
/// bytes alone.
pub uninterp spec fn utf8_lossy(bytes: Seq<u8>) -> Seq<char>;

/// Calls `String::from_utf8_lossy`; its result is named `utf8_lossy` of the
/// bytes, and on valid UTF-8 it is the decoded text, as the documentation says.
#[verifier::external_body]
pub(crate) fn from_utf8_lossy(bytes: &[u8]) -> (r: String)
    ensures
        r@ == utf8_lossy(bytes@),
        vstd::utf8::valid_utf8(bytes@) ==> r@ == vstd::utf8::decode_utf8(bytes@),
{
    String::from_utf8_lossy(bytes).into_owned()
}

/// What the `Debug` formatting of a string slice gives (the text quoted and
/// escaped): a function of the text alone.
pub uninterp spec fn debug_quoted(s: Seq<char>) -> Seq<char>;

/// Formats `s` with `{:?}` (the `Debug` impl of `str`); its result is named
/// `debug_quoted` of the text. Nothing is claimed of the escaping itself.
#[verifier::external_body]
pub(crate) fn debug_quote(s: &str) -> (r: String)
    ensures
        r@ == debug_quoted(s@),
{
    format!("{:?}", s)
}

} // verus!
