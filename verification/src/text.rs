//! Character-level text operations over Unicode scalar values: whitespace,
//! trimming, truncation, splitting and joining. Every operation is stated
//! over the `Seq<char>` view of a string.
use vstd::prelude::*;
use vstd::string::*;

verus! {

broadcast use vstd::string::group_string_axioms;

// ---------------------------------------------------------------------------
// Character classes
// ---------------------------------------------------------------------------

/// The Unicode `White_Space` property (PropList.txt), the set of characters
/// that `char::is_whitespace` accepts.
pub open spec fn is_ws(c: char) -> bool {
    let u = c as u32;
    ||| 0x09 <= u <= 0x0d
    ||| u == 0x20
    ||| u == 0x85
    ||| u == 0xa0
    ||| u == 0x1680
    ||| 0x2000 <= u <= 0x200a
    ||| u == 0x2028
    ||| u == 0x2029
    ||| u == 0x202f
    ||| u == 0x205f
    ||| u == 0x3000
}

/// Whether `c` is a Unicode whitespace character.
pub fn is_whitespace(c: char) -> (r: bool)
    ensures
        r == is_ws(c),
{
    let u = c as u32;
    (0x09 <= u && u <= 0x0d) || u == 0x20 || u == 0x85 || u == 0xa0 || u == 0x1680 || (0x2000
        <= u && u <= 0x200a) || u == 0x2028 || u == 0x2029 || u == 0x202f || u == 0x205f || u
        == 0x3000
}

/// What a trim removes from the ends of a string: whitespace, or every
/// occurrence of one given character.
#[derive(Clone, Copy)]
pub enum Strip {
    Whitespace,
    Char(char),
}

pub open spec fn strips(k: Strip, c: char) -> bool {
    match k {
        Strip::Whitespace => is_ws(c),
        Strip::Char(d) => c == d,
    }
}

fn strips_exec(k: Strip, c: char) -> (r: bool)
    ensures
        r == strips(k, c),
{
    match k {
        Strip::Whitespace => is_whitespace(c),
        Strip::Char(d) => c == d,
    }
}

// ---------------------------------------------------------------------------
// Trimming
// ---------------------------------------------------------------------------

/// `s` without its longest prefix of characters that `k` strips.
pub open spec fn strip_start(s: Seq<char>, k: Strip) -> Seq<char>
    decreases s.len(),
{
    if s.len() > 0 && strips(k, s[0]) {
        strip_start(s.drop_first(), k)
    } else {
        s
    }
}

/// `s` without its longest suffix of characters that `k` strips.
pub open spec fn strip_end(s: Seq<char>, k: Strip) -> Seq<char>
    decreases s.len(),
{
    if s.len() > 0 && strips(k, s.last()) {
        strip_end(s.drop_last(), k)
    } else {
        s
    }
}

/// `s` with both ends stripped (`str::trim` for whitespace, `str::trim_matches`
/// for a character).
pub open spec fn strip_both(s: Seq<char>, k: Strip) -> Seq<char> {
    strip_end(strip_start(s, k), k)
}

/// `str::trim`: both ends without whitespace.
pub open spec fn trim(s: Seq<char>) -> Seq<char> {
    strip_both(s, Strip::Whitespace)
}

/// `s.trim().is_empty()`: the string holds only whitespace.
pub open spec fn is_blank(s: Seq<char>) -> bool {
    forall|i: int| 0 <= i < s.len() ==> #[trigger] is_ws(s[i])
}

pub proof fn lemma_strip_start_at(s: Seq<char>, k: Strip, i: int)
    requires
        0 <= i <= s.len(),
        forall|j: int| 0 <= j < i ==> #[trigger] strips(k, s[j]),
        i == s.len() || !strips(k, s[i]),
    ensures
        strip_start(s, k) == s.subrange(i, s.len() as int),
    decreases i,
{
    if i == 0 {
        assert(s.subrange(0, s.len() as int) =~= s);
    } else {
        let t = s.drop_first();
        assert forall|j: int| 0 <= j < i - 1 implies #[trigger] strips(k, t[j]) by {
            assert(t[j] == s[j + 1]);
        }
        assert(strips(k, s[0]));
        lemma_strip_start_at(t, k, i - 1);
        assert(t.subrange(i - 1, t.len() as int) =~= s.subrange(i, s.len() as int));
    }
}

pub proof fn lemma_strip_end_at(s: Seq<char>, k: Strip, j: int)
    requires
        0 <= j <= s.len(),
        forall|m: int| j <= m < s.len() ==> #[trigger] strips(k, s[m]),
        j == 0 || !strips(k, s[j - 1]),
    ensures
        strip_end(s, k) == s.subrange(0, j),
    decreases s.len() - j,
{
    if j == s.len() {
        assert(s.subrange(0, j) =~= s);
        if s.len() > 0 {
            assert(s.last() == s[j - 1]);
        }
    } else {
        let t = s.drop_last();
        assert(strips(k, s[s.len() - 1]));
        assert forall|m: int| j <= m < t.len() implies #[trigger] strips(k, t[m]) by {
            assert(t[m] == s[m]);
        }
        if j > 0 {
            assert(t[j - 1] == s[j - 1]);
        }
        lemma_strip_end_at(t, k, j);
        assert(t.subrange(0, j) =~= s.subrange(0, j));
    }
}

/// A character that `k` does not strip survives `strip_start`.
proof fn lemma_strip_start_keeps(s: Seq<char>, k: Strip, m: int)
    requires
        0 <= m < s.len(),
        !strips(k, s[m]),
    ensures
        exists|j: int| 0 <= j < strip_start(s, k).len() && !strips(k, #[trigger] strip_start(s, k)[j]),
    decreases s.len(),
{
    if strips(k, s[0]) {
        assert(m > 0);
        assert(s.drop_first()[m - 1] == s[m]);
        lemma_strip_start_keeps(s.drop_first(), k, m - 1);
        assert(strip_start(s, k) == strip_start(s.drop_first(), k));
    } else {
        assert(strip_start(s, k) == s);
        assert(strip_start(s, k)[m] == s[m]);
    }
}

/// A character that `k` does not strip survives `strip_end`.
proof fn lemma_strip_end_keeps(s: Seq<char>, k: Strip, m: int)
    requires
        0 <= m < s.len(),
        !strips(k, s[m]),
    ensures
        strip_end(s, k).len() > m,
    decreases s.len(),
{
    if strips(k, s.last()) {
        assert(m < s.len() - 1);
        assert(s.drop_last()[m] == s[m]);
        lemma_strip_end_keeps(s.drop_last(), k, m);
    }
}

/// A string trims to nothing (`s.trim().is_empty()`) exactly when every one
/// of its characters is whitespace.
pub proof fn law_trimmed_empty_iff_all_whitespace(s: Seq<char>)
    ensures
        trim(s).len() == 0 <==> (forall|i: int| 0 <= i < s.len() ==> #[trigger] is_ws(s[i])),
        trim(s).len() == 0 <==> is_blank(s),
{
    if forall|i: int| 0 <= i < s.len() ==> #[trigger] is_ws(s[i]) {
        assert forall|j: int| 0 <= j < s.len() implies #[trigger] strips(Strip::Whitespace, s[j]) by {
            assert(is_ws(s[j]));
        }
        lemma_strip_start_at(s, Strip::Whitespace, s.len() as int);
        let t = strip_start(s, Strip::Whitespace);
        assert(t.len() == 0);
    } else {
        let m = choose|i: int| 0 <= i < s.len() && !is_ws(#[trigger] s[i]);
        lemma_strip_start_keeps(s, Strip::Whitespace, m);
        let t = strip_start(s, Strip::Whitespace);
        let j = choose|j: int| 0 <= j < t.len() && !strips(Strip::Whitespace, #[trigger] t[j]);
        lemma_strip_end_keeps(t, Strip::Whitespace, j);
    }
}

/// Removes from both ends of `s` the characters that `k` strips.
pub fn strip(s: &str, k: Strip) -> (r: String)
    ensures
        r@ == strip_both(s@, k),
{
    let n = s.unicode_len();
    let mut i: usize = 0;
    while i < n && strips_exec(k, s.get_char(i))
        invariant
            n == s@.len(),
            i <= n,
            forall|j: int| 0 <= j < i ==> #[trigger] strips(k, s@[j]),
        decreases n - i,
    {
        i = i + 1;
    }
    let mut j: usize = n;
    while j > i && strips_exec(k, s.get_char(j - 1))
        invariant
            n == s@.len(),
            i <= j <= n,
            forall|m: int| j <= m < n ==> #[trigger] strips(k, s@[m]),
        decreases j,
    {
        j = j - 1;
    }
    proof {
        lemma_strip_start_at(s@, k, i as int);
        let t = s@.subrange(i as int, n as int);
        assert forall|m: int| j - i <= m < t.len() implies #[trigger] strips(k, t[m]) by {
            assert(t[m] == s@[m + i]);
        }
        if j > i {
            assert(t[j - i - 1] == s@[j - 1]);
        }
        lemma_strip_end_at(t, k, j - i);
        assert(t.subrange(0, j - i) =~= s@.subrange(i as int, j as int));
    }
    let sub = s.substring_char(i, j);
    sub.to_string()
}

/// `str::trim`.
pub fn trim_str(s: &str) -> (r: String)
    ensures
        r@ == trim(s@),
{
    strip(s, Strip::Whitespace)
}

/// `s.trim().is_empty()`.
pub fn is_blank_str(s: &str) -> (r: bool)
    ensures
        r == is_blank(s@),
{
    let n = s.unicode_len();
    let mut i: usize = 0;
    while i < n
        invariant
            n == s@.len(),
            i <= n,
            forall|j: int| 0 <= j < i ==> #[trigger] is_ws(s@[j]),
        decreases n - i,
    {
        if !is_whitespace(s.get_char(i)) {
            return false;
        }
        i = i + 1;
    }
    true
}

// ---------------------------------------------------------------------------
// Prefixes, truncation
// ---------------------------------------------------------------------------

/// The first `n` characters of `s`, or all of `s` when it is shorter.
pub open spec fn take_chars(s: Seq<char>, n: nat) -> Seq<char> {
    if s.len() <= n {
        s
    } else {
        s.subrange(0, n as int)
    }
}

/// `s.chars().take(n).collect::<String>()`.
pub fn take_chars_str(s: &str, n: usize) -> (r: String)
    ensures
        r@ == take_chars(s@, n as nat),
{
    let len = s.unicode_len();
    if len <= n {
        assert(s@.subrange(0, len as int) =~= s@);
        s.to_string()
    } else {
        s.substring_char(0, n).to_string()
    }
}

/// A string cut to `max_len` characters, marked with `...` when it was cut.
pub open spec fn truncated(s: Seq<char>, max_len: nat) -> Seq<char> {
    if s.len() <= max_len {
        s
    } else {
        s.subrange(0, max_len as int) + "..."@
    }
}

/// Cuts `value` to `max_len` characters; a longer value keeps its first
/// `max_len` characters followed by `...`.
pub fn truncate(value: &str, max_len: usize) -> (r: String)
    ensures
        r@ == truncated(value@, max_len as nat),
{
    if value.unicode_len() <= max_len {
        value.to_string()
    } else {
        let head = value.substring_char(0, max_len).to_string();
        head.concat("...")
    }
}

/// Whether `s` begins with `p`.
pub open spec fn has_prefix(s: Seq<char>, p: Seq<char>) -> bool {
    p.len() <= s.len() && s.subrange(0, p.len() as int) == p
}

/// `str::starts_with` for a string pattern.
pub fn starts_with(s: &str, p: &str) -> (r: bool)
    ensures
        r == has_prefix(s@, p@),
{
    let n = s.unicode_len();
    let m = p.unicode_len();
    if m > n {
        return false;
    }
    let mut i: usize = 0;
    while i < m
        invariant
            n == s@.len(),
            m == p@.len(),
            m <= n,
            i <= m,
            forall|j: int| 0 <= j < i ==> s@[j] == p@[j],
        decreases m - i,
    {
        if s.get_char(i) != p.get_char(i) {
            assert(s@.subrange(0, m as int)[i as int] != p@[i as int]);
            return false;
        }
        i = i + 1;
    }
    assert(s@.subrange(0, m as int) =~= p@);
    true
}

/// Equality of two string slices by their characters.
pub fn str_eq(a: &str, b: &str) -> (r: bool)
    ensures
        r == (a@ == b@),
{
    let n = a.unicode_len();
    let m = b.unicode_len();
    if n != m {
        return false;
    }
    let mut i: usize = 0;
    while i < n
        invariant
            n == a@.len(),
            m == b@.len(),
            n == m,
            i <= n,
            forall|j: int| 0 <= j < i ==> a@[j] == b@[j],
        decreases n - i,
    {
        if a.get_char(i) != b.get_char(i) {
            return false;
        }
        i = i + 1;
    }
    assert(a@ =~= b@);
    true
}

// ---------------------------------------------------------------------------
// Splitting and joining
// ---------------------------------------------------------------------------

/// `str::split_whitespace`: the maximal runs of non-whitespace characters,
/// in order.
pub open spec fn words(s: Seq<char>) -> Seq<Seq<char>>
    decreases s.len(),
{
    if s.len() == 0 {
        Seq::empty()
    } else {
        let p = s.drop_last();
        let c = s.last();
        if is_ws(c) {
            words(p)
        } else if p.len() > 0 && !is_ws(p.last()) {
            let w = words(p);
            w.drop_last().push(w.last().push(c))
        } else {
            words(p).push(seq![c])
        }
    }
}

/// The last word of `words(s)` runs from `start` to the end of `s` when `s`
/// ends in a non-whitespace character and `start` begins that run.
proof fn lemma_words_nonempty(s: Seq<char>)
    requires
        s.len() > 0,
        !is_ws(s.last()),
    ensures
        words(s).len() > 0,
    decreases s.len(),
{
    let p = s.drop_last();
    if p.len() > 0 && !is_ws(p.last()) {
        lemma_words_nonempty(p);
    }
}

/// Whether `w` is a word: not empty, and without whitespace.
pub open spec fn is_word(w: Seq<char>) -> bool {
    w.len() > 0 && forall|i: int| 0 <= i < w.len() ==> !is_ws(#[trigger] w[i])
}

/// Every piece that `words` yields is a word.
pub proof fn lemma_words_are_words(s: Seq<char>)
    ensures
        forall|i: int| 0 <= i < words(s).len() ==> is_word(#[trigger] words(s)[i]),
    decreases s.len(),
{
    if s.len() > 0 {
        let p = s.drop_last();
        let c = s.last();
        lemma_words_are_words(p);
        if !is_ws(c) && p.len() > 0 && !is_ws(p.last()) {
            lemma_words_nonempty(p);
            let w = words(p);
            assert forall|i: int| 0 <= i < words(s).len() implies is_word(#[trigger] words(s)[i]) by {
                if i == w.len() - 1 {
                    assert(is_word(w[i]));
                    assert(words(s)[i] == w.last().push(c));
                    assert forall|j: int| 0 <= j < words(s)[i].len() implies !is_ws(#[trigger] words(s)[i][j]) by {
                        if j < w.last().len() {
                            assert(words(s)[i][j] == w[i][j]);
                        }
                    }
                } else {
                    assert(words(s)[i] == w[i]);
                }
            }
        } else if !is_ws(c) {
            assert forall|i: int| 0 <= i < words(s).len() implies is_word(#[trigger] words(s)[i]) by {
                if i < words(p).len() {
                    assert(words(s)[i] == words(p)[i]);
                } else {
                    assert(words(s)[i] == seq![c]);
                }
            }
        }
    }
}

/// Whitespace at the end of a text adds no word.
pub proof fn lemma_words_trailing_ws(x: Seq<char>, c: char)
    requires
        is_ws(c),
    ensures
        words(x.push(c)) == words(x),
{
    assert(x.push(c).drop_last() =~= x);
}

/// A word appended to a text that is empty or ends in whitespace is its
/// last word.
pub proof fn lemma_words_append_word(x: Seq<char>, w: Seq<char>)
    requires
        x.len() == 0 || is_ws(x.last()),
        is_word(w),
    ensures
        words(x + w) == words(x).push(w),
    decreases w.len(),
{
    let s = x + w;
    let p = w.drop_last();
    assert(s.drop_last() =~= x + p);
    assert(s.last() == w.last());
    assert(!is_ws(w[w.len() - 1]));
    if p.len() == 0 {
        assert(x + p =~= x);
        assert(w =~= seq![w.last()]);
    } else {
        assert(is_word(p)) by {
            assert forall|i: int| 0 <= i < p.len() implies !is_ws(#[trigger] p[i]) by {
                assert(p[i] == w[i]);
            }
        }
        lemma_words_append_word(x, p);
        assert((x + p).last() == p.last());
        assert(!is_ws(w[p.len() - 1]));
        assert(words(x + p).drop_last() =~= words(x));
        assert(p.push(w.last()) =~= w);
    }
}

/// The strings of a vector, as character sequences.
pub open spec fn views_of(v: Seq<String>) -> Seq<Seq<char>> {
    v.map_values(|x: String| x@)
}

/// Splits `s` into its whitespace-separated words.
pub fn split_whitespace(s: &str) -> (r: Vec<String>)
    ensures
        views_of(r@) == words(s@),
{
    let n = s.unicode_len();
    let mut out: Vec<String> = Vec::new();
    let mut start: usize = 0;
    let mut in_word = false;
    let mut i: usize = 0;
    while i < n
        invariant
            n == s@.len(),
            i <= n,
            start <= i,
            in_word <==> (i > 0 && !is_ws(s@[i - 1])),
            in_word ==> start < i,
            in_word ==> forall|j: int| start <= j < i ==> !#[trigger] is_ws(s@[j]),
            in_word ==> (start == 0 || is_ws(s@[start - 1])),
            !in_word ==> views_of(out@) == words(s@.subrange(0, i as int)),
            in_word ==> views_of(out@).push(s@.subrange(start as int, i as int)) == words(
                s@.subrange(0, i as int),
            ),
        decreases n - i,
    {
        let c = s.get_char(i);
        let ghost pre = s@.subrange(0, i as int);
        let ghost post = s@.subrange(0, i + 1);
        assert(post.drop_last() =~= pre);
        assert(post.last() == c);
        if is_whitespace(c) {
            if in_word {
                let w = s.substring_char(start, i).to_string();
                out.push(w);
                assert(views_of(out@) =~= views_of(out@).drop_last().push(w@));
            }
            assert(words(post) == words(pre));
            in_word = false;
        } else {
            if !in_word {
                start = i;
                in_word = true;
                assert(words(post) == words(pre).push(seq![c]));
                assert(s@.subrange(start as int, i + 1) =~= seq![c]);
            } else {
                assert(pre.last() == s@[i - 1]);
                let ghost w = words(pre);
                assert(w == views_of(out@).push(s@.subrange(start as int, i as int)));
                assert(w.drop_last() =~= views_of(out@));
                assert(s@.subrange(start as int, i + 1) =~= s@.subrange(
                    start as int,
                    i as int,
                ).push(c));
            }
        }
        i = i + 1;
    }
    if in_word {
        let w = s.substring_char(start, n).to_string();
        out.push(w);
        assert(views_of(out@) =~= views_of(out@).drop_last().push(w@));
    }
    assert(s@.subrange(0, n as int) =~= s@);
    out
}

/// The strings of `list` joined with `sep` between neighbours.
pub open spec fn joined(list: Seq<Seq<char>>, sep: Seq<char>) -> Seq<char>
    decreases list.len(),
{
    if list.len() == 0 {
        Seq::empty()
    } else if list.len() == 1 {
        list[0]
    } else {
        joined(list.drop_last(), sep) + sep + list.last()
    }
}

/// `list.join(sep)` over the first `count` strings of `list` (all of them
/// when there are fewer).
pub fn join_first(list: &Vec<String>, count: usize, sep: &str) -> (r: String)
    ensures
        r@ == joined(views_of(list@).take(if list@.len() < count { list@.len() as int } else { count as int }), sep@),
{
    let k = if list.len() < count { list.len() } else { count };
    let mut r = String::new();
    let mut i: usize = 0;
    while i < k
        invariant
            k <= list@.len(),
            i <= k,
            r@ == joined(views_of(list@).take(i as int), sep@),
        decreases k - i,
    {
        let ghost before = views_of(list@).take(i as int);
        let ghost after = views_of(list@).take(i + 1);
        assert(after.drop_last() =~= before);
        assert(after.last() == list@[i as int]@);
        if i == 0 {
            r.append(list[i].as_str());
            assert(r@ =~= after[0]);
        } else {
            r.append(sep);
            r.append(list[i].as_str());
        }
        i = i + 1;
    }
    r
}

/// `s.split(sep)`: the pieces between occurrences of `sep` (always at least
/// one, possibly empty).
pub open spec fn split_on(s: Seq<char>, sep: char) -> Seq<Seq<char>>
    decreases s.len(),
{
    if s.len() == 0 {
        seq![Seq::empty()]
    } else {
        let p = split_on(s.drop_last(), sep);
        if s.last() == sep {
            p.push(Seq::empty())
        } else {
            p.drop_last().push(p.last().push(s.last()))
        }
    }
}

pub proof fn lemma_split_on_nonempty(s: Seq<char>, sep: char)
    ensures
        split_on(s, sep).len() > 0,
    decreases s.len(),
{
    if s.len() > 0 {
        lemma_split_on_nonempty(s.drop_last(), sep);
    }
}

/// Splits `s` at every occurrence of `sep`.
pub fn split_char(s: &str, sep: char) -> (r: Vec<String>)
    ensures
        views_of(r@) == split_on(s@, sep),
{
    let n = s.unicode_len();
    let mut out: Vec<String> = Vec::new();
    let mut start: usize = 0;
    let mut i: usize = 0;
    proof {
        let e = s@.subrange(0, 0);
        assert(e.len() == 0);
        assert(split_on(e, sep) == seq![Seq::<char>::empty()]);
        assert(views_of(out@) =~= Seq::<Seq<char>>::empty());
        assert(e =~= Seq::<char>::empty());
        assert(views_of(out@).push(e) =~= split_on(e, sep));
    }
    while i < n
        invariant
            n == s@.len(),
            start <= i <= n,
            views_of(out@).push(s@.subrange(start as int, i as int)) == split_on(
                s@.subrange(0, i as int),
                sep,
            ),
        decreases n - i,
    {
        let c = s.get_char(i);
        let ghost pre = s@.subrange(0, i as int);
        let ghost post = s@.subrange(0, i + 1);
        assert(post.drop_last() =~= pre);
        assert(post.last() == c);
        proof {
            lemma_split_on_nonempty(pre, sep);
        }
        if c == sep {
            let piece = s.substring_char(start, i).to_string();
            out.push(piece);
            start = i + 1;
            assert(views_of(out@) =~= views_of(out@).drop_last().push(piece@));
            assert(s@.subrange(start as int, i + 1) =~= Seq::<char>::empty());
        } else {
            let ghost p = split_on(pre, sep);
            assert(p.drop_last() =~= views_of(out@));
            assert(s@.subrange(start as int, i + 1) =~= s@.subrange(start as int, i as int).push(
                c,
            ));
        }
        i = i + 1;
    }
    let piece = s.substring_char(start, n).to_string();
    out.push(piece);
    assert(views_of(out@) =~= views_of(out@).drop_last().push(piece@));
    assert(s@.subrange(0, n as int) =~= s@);
    out
}

/// Index of the first occurrence of `c` in `s`, if any.
pub open spec fn first_index_of(s: Seq<char>, c: char) -> Option<int>
    decreases s.len(),
{
    if s.len() == 0 {
        None
    } else if s[0] == c {
        Some(0)
    } else {
        match first_index_of(s.drop_first(), c) {
            Some(i) => Some(i + 1),
            None => None,
        }
    }
}

pub proof fn lemma_first_index_of(s: Seq<char>, c: char, i: int)
    requires
        0 <= i <= s.len(),
        forall|j: int| 0 <= j < i ==> s[j] != c,
    ensures
        i < s.len() && s[i] == c ==> first_index_of(s, c) == Some(i),
        i == s.len() ==> first_index_of(s, c) == None::<int>,
    decreases i,
{
    if i > 0 {
        let t = s.drop_first();
        assert forall|j: int| 0 <= j < i - 1 implies t[j] != c by {
            assert(t[j] == s[j + 1]);
        }
        lemma_first_index_of(t, c, i - 1);
        if i < s.len() {
            assert(t[i - 1] == s[i]);
        }
    }
}

/// `str::split_once` at a character: the text before and after its first
/// occurrence.
pub open spec fn split_once_at(s: Seq<char>, c: char) -> Option<(Seq<char>, Seq<char>)> {
    match first_index_of(s, c) {
        Some(i) => Some((s.subrange(0, i), s.subrange(i + 1, s.len() as int))),
        None => None,
    }
}

/// `str::split_once` at a character.
pub fn split_once(s: &str, c: char) -> (r: Option<(String, String)>)
    ensures
        match r {
            Some(p) => split_once_at(s@, c) == Some((p.0@, p.1@)),
            None => split_once_at(s@, c) is None,
        },
{
    let n = s.unicode_len();
    let mut i: usize = 0;
    while i < n
        invariant
            n == s@.len(),
            i <= n,
            forall|j: int| 0 <= j < i ==> s@[j] != c,
        decreases n - i,
    {
        if s.get_char(i) == c {
            proof {
                lemma_first_index_of(s@, c, i as int);
            }
            let a = s.substring_char(0, i).to_string();
            let b = s.substring_char(i + 1, n).to_string();
            return Some((a, b));
        }
        i = i + 1;
    }
    proof {
        lemma_first_index_of(s@, c, i as int);
    }
    None
}

// ---------------------------------------------------------------------------
// Lexicographic order
// ---------------------------------------------------------------------------

/// `a < b` in the order of `String`: lexicographic by Unicode scalar value
/// (which is also the byte order of their UTF-8 encodings).
pub open spec fn lex_lt(a: Seq<char>, b: Seq<char>) -> bool
    decreases a.len(),
{
    if a.len() == 0 {
        b.len() > 0
    } else if b.len() == 0 {
        false
    } else if a[0] == b[0] {
        lex_lt(a.drop_first(), b.drop_first())
    } else {
        (a[0] as int) < (b[0] as int)
    }
}

proof fn lemma_lex_lt_skip(a: Seq<char>, b: Seq<char>, i: int)
    requires
        0 <= i <= a.len(),
        i <= b.len(),
        forall|j: int| 0 <= j < i ==> a[j] == b[j],
    ensures
        lex_lt(a, b) == lex_lt(a.skip(i), b.skip(i)),
    decreases i,
{
    if i > 0 {
        assert forall|j: int| 0 <= j < i - 1 implies a.drop_first()[j] == b.drop_first()[j] by {
            assert(a.drop_first()[j] == a[j + 1]);
            assert(b.drop_first()[j] == b[j + 1]);
        }
        lemma_lex_lt_skip(a.drop_first(), b.drop_first(), i - 1);
        assert(a.drop_first().skip(i - 1) =~= a.skip(i));
        assert(b.drop_first().skip(i - 1) =~= b.skip(i));
    } else {
        assert(a.skip(0) =~= a);
        assert(b.skip(0) =~= b);
    }
}

/// Whether `a < b` in the order of `String`.
pub fn lex_less(a: &str, b: &str) -> (r: bool)
    ensures
        r == lex_lt(a@, b@),
{
    let n = a.unicode_len();
    let m = b.unicode_len();
    let mut i: usize = 0;
    while i < n && i < m
        invariant
            n == a@.len(),
            m == b@.len(),
            i <= n,
            i <= m,
            forall|j: int| 0 <= j < i ==> a@[j] == b@[j],
        decreases n - i,
    {
        let x = a.get_char(i);
        let y = b.get_char(i);
        if x != y {
            proof {
                lemma_lex_lt_skip(a@, b@, i as int);
                assert(a@.skip(i as int)[0] == x);
                assert(b@.skip(i as int)[0] == y);
            }
            return (x as u32) < (y as u32);
        }
        i = i + 1;
    }
    proof {
        lemma_lex_lt_skip(a@, b@, i as int);
    }
    i == n && i < m
}

/// The order is a strict total order.
pub proof fn lemma_lex_lt_asym(a: Seq<char>, b: Seq<char>)
    ensures
        !(lex_lt(a, b) && lex_lt(b, a)),
    decreases a.len(),
{
    if a.len() > 0 && b.len() > 0 && a[0] == b[0] {
        lemma_lex_lt_asym(a.drop_first(), b.drop_first());
    }
}

pub proof fn lemma_lex_lt_total(a: Seq<char>, b: Seq<char>)
    ensures
        lex_lt(a, b) || a == b || lex_lt(b, a),
    decreases a.len(),
{
    if a.len() == 0 {
        if b.len() == 0 {
            assert(a =~= b);
        }
    } else if b.len() > 0 && a[0] == b[0] {
        lemma_lex_lt_total(a.drop_first(), b.drop_first());
        if a.drop_first() == b.drop_first() {
            assert(a =~= seq![a[0]] + a.drop_first());
            assert(b =~= seq![b[0]] + b.drop_first());
        }
    } else if b.len() > 0 {
        assert((a[0] as int) != (b[0] as int));
    }
}

pub proof fn lemma_lex_lt_trans(a: Seq<char>, b: Seq<char>, c: Seq<char>)
    requires
        lex_lt(a, b),
        lex_lt(b, c),
    ensures
        lex_lt(a, c),
    decreases a.len(),
{
    if a.len() > 0 && b.len() > 0 && c.len() > 0 && a[0] == b[0] && b[0] == c[0] {
        lemma_lex_lt_trans(a.drop_first(), b.drop_first(), c.drop_first());
    }
}

} // verus!
