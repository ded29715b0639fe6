//! Text as sequences of characters: the string operations that the rest of
//! the library is built from, each with its mathematical meaning.
use vstd::prelude::*;

verus! {

/// `String::push` appends one character.
pub assume_specification[ String::push ](s: &mut String, c: char)
    ensures
        final(s)@ == old(s)@.push(c),
;

/// The texts held by a list of strings.
pub open spec fn texts(v: Seq<String>) -> Seq<Seq<char>> {
    Seq::new(v.len(), |i: int| v[i]@)
}

pub broadcast proof fn lemma_texts_push(v: Seq<String>, s: String)
    ensures
        #[trigger] texts(v.push(s)) == texts(v).push(s@),
{
    assert(texts(v.push(s)) =~= texts(v).push(s@));
}

pub broadcast proof fn lemma_texts_empty(v: Seq<String>)
    requires
        v.len() == 0,
    ensures
        #[trigger] texts(v) == Seq::<Seq<char>>::empty(),
{
    assert(texts(v) =~= Seq::<Seq<char>>::empty());
}

/// The text of an optional string.
pub open spec fn opt_text(o: Option<String>) -> Option<Seq<char>> {
    match o {
        Some(s) => Some(s@),
        None => None,
    }
}

// ---------------------------------------------------------------------------
// Character classes
// ---------------------------------------------------------------------------

/// Unicode white space (the `White_Space` property).
pub open spec fn is_space(c: char) -> bool {
    let n = c as u32;
    ||| 0x09 <= n <= 0x0d
    ||| n == 0x20
    ||| n == 0x85
    ||| n == 0xa0
    ||| n == 0x1680
    ||| 0x2000 <= n <= 0x200a
    ||| n == 0x2028
    ||| n == 0x2029
    ||| n == 0x202f
    ||| n == 0x205f
    ||| n == 0x3000
}

/// Unicode control characters (category `Cc`).
pub open spec fn is_control(c: char) -> bool {
    let n = c as u32;
    n <= 0x1f || 0x7f <= n <= 0x9f
}

pub open spec fn is_digit(c: char) -> bool {
    '0' <= c <= '9'
}

pub open spec fn is_upper(c: char) -> bool {
    'A' <= c <= 'Z'
}

pub open spec fn is_lower(c: char) -> bool {
    'a' <= c <= 'z'
}

pub open spec fn is_alpha(c: char) -> bool {
    is_upper(c) || is_lower(c)
}

pub open spec fn is_alnum(c: char) -> bool {
    is_alpha(c) || is_digit(c)
}

/// The ASCII lower-case form of a character.
pub open spec fn lower_char(c: char) -> char {
    if is_upper(c) {
        ((c as u32 + 32) as u32) as char
    } else {
        c
    }
}

/// The ASCII upper-case form of a character.
pub open spec fn upper_char(c: char) -> char {
    if is_lower(c) {
        ((c as u32 - 32) as u32) as char
    } else {
        c
    }
}

/// The ASCII lower-case form of a text, character by character.
pub open spec fn lower_text(s: Seq<char>) -> Seq<char> {
    Seq::new(s.len(), |i: int| lower_char(s[i]))
}

pub fn char_is_space(c: char) -> (r: bool)
    ensures
        r == is_space(c),
{
    let n: u32 = c as u32;
    (0x09 <= n && n <= 0x0d) || n == 0x20 || n == 0x85 || n == 0xa0 || n == 0x1680
        || (0x2000 <= n && n <= 0x200a) || n == 0x2028 || n == 0x2029 || n == 0x202f
        || n == 0x205f || n == 0x3000
}

pub fn char_is_control(c: char) -> (r: bool)
    ensures
        r == is_control(c),
{
    let n: u32 = c as u32;
    n <= 0x1f || (0x7f <= n && n <= 0x9f)
}

pub fn char_is_digit(c: char) -> (r: bool)
    ensures
        r == is_digit(c),
{
    '0' <= c && c <= '9'
}

pub fn char_is_alpha(c: char) -> (r: bool)
    ensures
        r == is_alpha(c),
{
    ('A' <= c && c <= 'Z') || ('a' <= c && c <= 'z')
}

pub fn char_is_alnum(c: char) -> (r: bool)
    ensures
        r == is_alnum(c),
{
    char_is_alpha(c) || char_is_digit(c)
}

pub fn char_lower(c: char) -> (r: char)
    ensures
        r == lower_char(c),
{
    if 'A' <= c && c <= 'Z' {
        let n: u8 = c as u8 + 32;
        n as char
    } else {
        c
    }
}

pub fn char_upper(c: char) -> (r: char)
    ensures
        r == upper_char(c),
{
    if 'a' <= c && c <= 'z' {
        let n: u8 = c as u8 - 32;
        n as char
    } else {
        c
    }
}

// ---------------------------------------------------------------------------
// Conversions, comparison and concatenation
// ---------------------------------------------------------------------------

/// The characters of a text.
pub fn chars_of(s: &str) -> (r: Vec<char>)
    ensures
        r@ == s@,
{
    let mut out: Vec<char> = Vec::new();
    for c in iter: s.chars()
        invariant
            out@ == iter.seq().take(iter.index() as int),
            iter.seq() == s@,
    {
        out.push(c);
    }
    out
}

/// The text made of the characters from `from` up to `to`.
pub fn text_between(v: &Vec<char>, from: usize, to: usize) -> (r: String)
    requires
        from <= to <= v.len(),
    ensures
        r@ == v@.subrange(from as int, to as int),
{
    let mut out = String::new();
    let mut i: usize = from;
    while i < to
        invariant
            from <= i <= to <= v.len(),
            out@ == v@.subrange(from as int, i as int),
        decreases to - i,
    {
        out.push(v[i]);
        i += 1;
    }
    out
}

/// The text made of the given characters.
pub fn text_of(v: &Vec<char>) -> (r: String)
    ensures
        r@ == v@,
{
    let r = text_between(v, 0, v.len());
    assert(v@.subrange(0, v.len() as int) =~= v@);
    r
}

/// An owned copy of a text.
pub fn copy_text(s: &str) -> (r: String)
    ensures
        r@ == s@,
{
    s.to_owned()
}

/// Whether two texts hold the same characters.
pub fn same_text(a: &str, b: &str) -> (r: bool)
    ensures
        r == (a@ == b@),
{
    let v = chars_of(a);
    let w = chars_of(b);
    if v.len() != w.len() {
        return false;
    }
    let mut i: usize = 0;
    while i < v.len()
        invariant
            i <= v.len(),
            v.len() == w.len(),
            v@ == a@,
            w@ == b@,
            forall|j: int| 0 <= j < i ==> v@[j] == w@[j],
        decreases v.len() - i,
    {
        if v[i] != w[i] {
            return false;
        }
        i += 1;
    }
    assert(a@ =~= b@);
    true
}

/// The number of characters of a text.
pub fn char_count(s: &str) -> (r: usize)
    ensures
        r == s@.len(),
{
    chars_of(s).len()
}

/// Appends a text.
pub fn push_text(out: &mut String, s: &str)
    ensures
        final(out)@ == old(out)@ + s@,
{
    let v = chars_of(s);
    let mut i: usize = 0;
    while i < v.len()
        invariant
            i <= v.len(),
            v@ == s@,
            out@ == old(out)@ + v@.take(i as int),
        decreases v.len() - i,
    {
        out.push(v[i]);
        i += 1;
        assert(v@.take(i as int) =~= v@.take(i - 1).push(v@[i - 1]));
    }
    assert(v@.take(v.len() as int) =~= v@);
}

pub fn concat2(a: &str, b: &str) -> (r: String)
    ensures
        r@ == a@ + b@,
{
    let mut out = copy_text(a);
    push_text(&mut out, b);
    out
}

pub fn concat3(a: &str, b: &str, c: &str) -> (r: String)
    ensures
        r@ == a@ + b@ + c@,
{
    let mut out = concat2(a, b);
    push_text(&mut out, c);
    out
}

/// The character `c`, `n` times.
pub open spec fn repeated(c: char, n: nat) -> Seq<char> {
    Seq::new(n, |i: int| c)
}

pub fn repeat_char(c: char, n: usize) -> (r: String)
    ensures
        r@ == repeated(c, n as nat),
{
    let mut out = String::new();
    let mut i: usize = 0;
    while i < n
        invariant
            i <= n,
            out@ == repeated(c, i as nat),
        decreases n - i,
    {
        out.push(c);
        i += 1;
        assert(repeated(c, i as nat) =~= repeated(c, (i - 1) as nat).push(c));
    }
    assert(out@ =~= repeated(c, n as nat));
    out
}

/// The ASCII lower-case form of a text.
pub fn lower(s: &str) -> (r: String)
    ensures
        r@ == lower_text(s@),
{
    let v = chars_of(s);
    let mut out = String::new();
    let mut i: usize = 0;
    while i < v.len()
        invariant
            i <= v.len(),
            v@ == s@,
            out@.len() == i,
            forall|j: int| 0 <= j < i ==> out@[j] == lower_char(v@[j]),
        decreases v.len() - i,
    {
        out.push(char_lower(v[i]));
        i += 1;
    }
    assert(out@ =~= lower_text(s@));
    out
}

// ---------------------------------------------------------------------------
// Searching
// ---------------------------------------------------------------------------

/// The pattern `p` stands in `s` at index `i`.
pub open spec fn occurs_at(s: Seq<char>, p: Seq<char>, i: int) -> bool {
    0 <= i && i + p.len() <= s.len() && s.subrange(i, i + p.len()) == p
}

/// The pattern `p` stands somewhere in `s`.
pub open spec fn has_text(s: Seq<char>, p: Seq<char>) -> bool {
    exists|i: int| occurs_at(s, p, i)
}

/// The first index, from `i` on, at which `p` stands in `s`.
pub open spec fn find_from(s: Seq<char>, p: Seq<char>, i: int) -> Option<int>
    decreases s.len() + 1 - i,
{
    if i < 0 || i + p.len() > s.len() {
        None
    } else if occurs_at(s, p, i) {
        Some(i)
    } else {
        find_from(s, p, i + 1)
    }
}

pub open spec fn has_prefix(s: Seq<char>, p: Seq<char>) -> bool {
    occurs_at(s, p, 0)
}

pub open spec fn has_suffix(s: Seq<char>, p: Seq<char>) -> bool {
    occurs_at(s, p, s.len() - p.len())
}

/// `find_from` is the first occurrence from `i` on, and `None` when there is none.
pub proof fn lemma_find_from(s: Seq<char>, p: Seq<char>, i: int)
    requires
        0 <= i,
    ensures
        match find_from(s, p, i) {
            Some(k) => {
                &&& i <= k
                &&& occurs_at(s, p, k)
                &&& forall|j: int| i <= j < k ==> !occurs_at(s, p, j)
            },
            None => forall|j: int| i <= j ==> !occurs_at(s, p, j),
        },
    decreases s.len() + 1 - i,
{
    if i + p.len() > s.len() {
    } else if occurs_at(s, p, i) {
    } else {
        lemma_find_from(s, p, i + 1);
    }
}

pub fn text_occurs_at(s: &Vec<char>, p: &Vec<char>, i: usize) -> (r: bool)
    ensures
        r == occurs_at(s@, p@, i as int),
{
    if p.len() > s.len() || i > s.len() - p.len() {
        return false;
    }
    let mut k: usize = 0;
    while k < p.len()
        invariant
            k <= p.len(),
            i + p.len() <= s.len(),
            forall|j: int| 0 <= j < k ==> s@[i + j] == p@[j],
        decreases p.len() - k,
    {
        if s[i + k] != p[k] {
            assert(s@.subrange(i as int, i + p.len())[k as int] != p@[k as int]);
            return false;
        }
        k += 1;
    }
    assert(s@.subrange(i as int, i + p.len()) =~= p@);
    true
}

/// The first index, from `from` on, at which `p` stands in `s`.
pub fn find_in(s: &Vec<char>, p: &Vec<char>, from: usize) -> (r: Option<usize>)
    ensures
        match r {
            Some(k) => find_from(s@, p@, from as int) == Some(k as int),
            None => find_from(s@, p@, from as int) is None,
        },
{
    if p.len() > s.len() {
        return None;
    }
    let last: usize = s.len() - p.len();
    let mut i: usize = from;
    while i <= last
        invariant
            from <= i,
            p.len() <= s.len(),
            last == s.len() - p.len(),
            find_from(s@, p@, from as int) == find_from(s@, p@, i as int),
        decreases last + 1 - i,
    {
        if text_occurs_at(s, p, i) {
            return Some(i);
        }
        if i == last {
            assert(find_from(s@, p@, i + 1) is None);
            return None;
        }
        i += 1;
    }
    None
}

pub fn find(s: &str, p: &str) -> (r: Option<usize>)
    ensures
        match r {
            Some(k) => find_from(s@, p@, 0) == Some(k as int),
            None => find_from(s@, p@, 0) is None,
        },
{
    find_in(&chars_of(s), &chars_of(p), 0)
}

pub fn contains(s: &str, p: &str) -> (r: bool)
    ensures
        r == has_text(s@, p@),
{
    proof {
        lemma_find_from(s@, p@, 0);
    }
    find(s, p).is_some()
}

pub fn starts_with(s: &str, p: &str) -> (r: bool)
    ensures
        r == has_prefix(s@, p@),
{
    text_occurs_at(&chars_of(s), &chars_of(p), 0)
}

pub fn ends_with(s: &str, p: &str) -> (r: bool)
    ensures
        r == has_suffix(s@, p@),
{
    let s = chars_of(s);
    let p = chars_of(p);
    if p.len() > s.len() {
        return false;
    }
    text_occurs_at(&s, &p, s.len() - p.len())
}

pub fn contains_char(s: &str, c: char) -> (r: bool)
    ensures
        r == s@.contains(c),
{
    let v = chars_of(s);
    let mut i: usize = 0;
    while i < v.len()
        invariant
            i <= v.len(),
            v@ == s@,
            forall|j: int| 0 <= j < i ==> v@[j] != c,
        decreases v.len() - i,
    {
        if v[i] == c {
            return true;
        }
        i += 1;
    }
    false
}

// ---------------------------------------------------------------------------
// Parts of a text
// ---------------------------------------------------------------------------

/// The first `n` characters, or all of them when there are fewer.
pub open spec fn first_chars(s: Seq<char>, n: int) -> Seq<char> {
    if n <= 0 {
        Seq::empty()
    } else if n < s.len() {
        s.take(n)
    } else {
        s
    }
}

/// What follows the first `n` characters.
pub open spec fn after_chars(s: Seq<char>, n: int) -> Seq<char> {
    if n <= 0 {
        s
    } else if n < s.len() {
        s.skip(n)
    } else {
        Seq::empty()
    }
}

pub fn take_chars(s: &str, n: usize) -> (r: String)
    ensures
        r@ == first_chars(s@, n as int),
{
    let v = chars_of(s);
    let to: usize = if n < v.len() { n } else { v.len() };
    let r = text_between(&v, 0, to);
    assert(v@.subrange(0, to as int) =~= first_chars(s@, n as int));
    r
}

pub fn skip_chars(s: &str, n: usize) -> (r: String)
    ensures
        r@ == after_chars(s@, n as int),
{
    let v = chars_of(s);
    let from: usize = if n < v.len() { n } else { v.len() };
    let r = text_between(&v, from, v.len());
    assert(v@.subrange(from as int, v.len() as int) =~= after_chars(s@, n as int));
    r
}

/// What follows the prefix `p`, where `s` starts with it.
pub open spec fn without_prefix(s: Seq<char>, p: Seq<char>) -> Option<Seq<char>> {
    if has_prefix(s, p) {
        Some(s.skip(p.len() as int))
    } else {
        None
    }
}

pub fn strip_prefix(s: &str, p: &str) -> (r: Option<String>)
    ensures
        opt_text(r) == without_prefix(s@, p@),
{
    if starts_with(s, p) {
        let n = char_count(p);
        let r = skip_chars(s, n);
        assert(after_chars(s@, n as int) =~= s@.skip(p@.len() as int));
        Some(r)
    } else {
        None
    }
}

/// The first index, from `i` on, that holds no white space.
pub open spec fn skip_space(s: Seq<char>, i: int) -> int
    decreases s.len() - i,
{
    if 0 <= i < s.len() && is_space(s[i]) {
        skip_space(s, i + 1)
    } else {
        i
    }
}

/// The first index, from `i` on, that holds white space, or the length.
pub open spec fn word_end(s: Seq<char>, i: int) -> int
    decreases s.len() - i,
{
    if 0 <= i < s.len() && !is_space(s[i]) {
        word_end(s, i + 1)
    } else {
        i
    }
}

/// The end of the first `n` characters once trailing white space is dropped.
pub open spec fn space_end(s: Seq<char>, n: int) -> int
    decreases n,
{
    if 0 < n <= s.len() && is_space(s[n - 1]) {
        space_end(s, n - 1)
    } else {
        n
    }
}

pub open spec fn trimmed_start(s: Seq<char>) -> Seq<char> {
    s.skip(skip_space(s, 0))
}

pub open spec fn trimmed_end(s: Seq<char>) -> Seq<char> {
    s.take(space_end(s, s.len() as int))
}

/// The text without leading and trailing white space.
pub open spec fn trimmed(s: Seq<char>) -> Seq<char> {
    trimmed_end(trimmed_start(s))
}

pub proof fn lemma_skip_space(s: Seq<char>, i: int)
    requires
        0 <= i <= s.len(),
    ensures
        i <= skip_space(s, i) <= s.len(),
        forall|j: int| i <= j < skip_space(s, i) ==> is_space(s[j]),
        skip_space(s, i) < s.len() ==> !is_space(s[skip_space(s, i)]),
    decreases s.len() - i,
{
    if i < s.len() && is_space(s[i]) {
        lemma_skip_space(s, i + 1);
    }
}

pub proof fn lemma_word_end(s: Seq<char>, i: int)
    requires
        0 <= i <= s.len(),
    ensures
        i <= word_end(s, i) <= s.len(),
        forall|j: int| i <= j < word_end(s, i) ==> !is_space(s[j]),
        word_end(s, i) < s.len() ==> is_space(s[word_end(s, i)]),
    decreases s.len() - i,
{
    if i < s.len() && !is_space(s[i]) {
        lemma_word_end(s, i + 1);
    }
}

pub proof fn lemma_space_end(s: Seq<char>, n: int)
    requires
        0 <= n <= s.len(),
    ensures
        0 <= space_end(s, n) <= n,
        forall|j: int| space_end(s, n) <= j < n ==> is_space(s[j]),
        space_end(s, n) > 0 ==> !is_space(s[space_end(s, n) - 1]),
    decreases n,
{
    if 0 < n && is_space(s[n - 1]) {
        lemma_space_end(s, n - 1);
    }
}

pub fn skip_space_at(v: &Vec<char>, from: usize) -> (r: usize)
    requires
        from <= v.len(),
    ensures
        r == skip_space(v@, from as int),
        from <= r <= v.len(),
{
    let mut i: usize = from;
    while i < v.len() && char_is_space(v[i])
        invariant
            from <= i <= v.len(),
            skip_space(v@, from as int) == skip_space(v@, i as int),
        decreases v.len() - i,
    {
        i += 1;
    }
    i
}

pub fn word_end_at(v: &Vec<char>, from: usize) -> (r: usize)
    requires
        from <= v.len(),
    ensures
        r == word_end(v@, from as int),
        from <= r <= v.len(),
{
    let mut i: usize = from;
    while i < v.len() && !char_is_space(v[i])
        invariant
            from <= i <= v.len(),
            word_end(v@, from as int) == word_end(v@, i as int),
        decreases v.len() - i,
    {
        i += 1;
    }
    i
}

pub fn trim_start(s: &str) -> (r: String)
    ensures
        r@ == trimmed_start(s@),
{
    let v = chars_of(s);
    let a = skip_space_at(&v, 0);
    text_between(&v, a, v.len())
}

pub fn trim_end(s: &str) -> (r: String)
    ensures
        r@ == trimmed_end(s@),
{
    let v = chars_of(s);
    let mut n: usize = v.len();
    while n > 0 && char_is_space(v[n - 1])
        invariant
            n <= v.len(),
            space_end(v@, v.len() as int) == space_end(v@, n as int),
        decreases n,
    {
        n -= 1;
    }
    text_between(&v, 0, n)
}

pub fn trim(s: &str) -> (r: String)
    ensures
        r@ == trimmed(s@),
{
    trim_end(&trim_start(s))
}

/// The words of a text, from index `i` on.
pub open spec fn words_from(s: Seq<char>, i: int) -> Seq<Seq<char>>
    decreases s.len() - i,
{
    let a = skip_space(s, i);
    let b = word_end(s, a);
    if 0 <= i <= a < b <= s.len() {
        seq![s.subrange(a, b)] + words_from(s, b)
    } else {
        Seq::empty()
    }
}

/// The words of a text: its longest runs without white space.
pub open spec fn words(s: Seq<char>) -> Seq<Seq<char>> {
    words_from(s, 0)
}

pub fn split_whitespace(s: &str) -> (r: Vec<String>)
    ensures
        texts(r@) == words(s@),
{
    broadcast use lemma_texts_push, lemma_texts_empty;

    let v = chars_of(s);
    let mut out: Vec<String> = Vec::new();
    let mut i: usize = 0;
    assert(texts(out@) + words_from(v@, 0) =~= words(s@));
    loop
        invariant
            i <= v.len(),
            v@ == s@,
            texts(out@) + words_from(v@, i as int) == words(s@),
        ensures
            texts(out@) == words(s@),
        decreases v.len() - i,
    {
        let a = skip_space_at(&v, i);
        proof {
            lemma_skip_space(v@, i as int);
            lemma_word_end(v@, a as int);
        }
        if a >= v.len() {
            assert(words_from(v@, i as int) =~= Seq::<Seq<char>>::empty());
            assert(texts(out@) + words_from(v@, i as int) =~= texts(out@));
            break;
        }
        let b = word_end_at(&v, a);
        assert(b > a) by {
            assert(word_end(v@, a as int) == word_end(v@, a + 1));
            lemma_word_end(v@, a + 1);
        }
        let ghost before = texts(out@);
        out.push(text_between(&v, a, b));
        assert(before + (seq![v@.subrange(a as int, b as int)] + words_from(v@, b as int))
            =~= before.push(v@.subrange(a as int, b as int)) + words_from(v@, b as int));
        i = b;
    }
    out
}

/// The first index, from `i` on, that holds `c`, or the length.
pub open spec fn next_char(s: Seq<char>, c: char, i: int) -> int
    decreases s.len() - i,
{
    if 0 <= i < s.len() && s[i] != c {
        next_char(s, c, i + 1)
    } else {
        i
    }
}

pub proof fn lemma_next_char(s: Seq<char>, c: char, i: int)
    requires
        0 <= i <= s.len(),
    ensures
        i <= next_char(s, c, i) <= s.len(),
        forall|j: int| i <= j < next_char(s, c, i) ==> s[j] != c,
        next_char(s, c, i) < s.len() ==> s[next_char(s, c, i)] == c,
    decreases s.len() - i,
{
    if i < s.len() && s[i] != c {
        lemma_next_char(s, c, i + 1);
    }
}

pub fn next_char_at(v: &Vec<char>, c: char, from: usize) -> (r: usize)
    requires
        from <= v.len(),
    ensures
        r == next_char(v@, c, from as int),
        from <= r <= v.len(),
        r < v.len() ==> v@[r as int] == c,
{
    let mut i: usize = from;
    while i < v.len() && v[i] != c
        invariant
            from <= i <= v.len(),
            next_char(v@, c, from as int) == next_char(v@, c, i as int),
        decreases v.len() - i,
    {
        i += 1;
    }
    i
}

/// The pieces between the separators `c`, from index `i` on.
pub open spec fn pieces_from(s: Seq<char>, c: char, i: int) -> Seq<Seq<char>>
    decreases s.len() - i,
{
    let e = next_char(s, c, i);
    if 0 <= i <= e < s.len() {
        seq![s.subrange(i, e)] + pieces_from(s, c, e + 1)
    } else {
        seq![s.skip(i)]
    }
}

/// The pieces of a text between the separators `c`; always at least one.
pub open spec fn pieces(s: Seq<char>, c: char) -> Seq<Seq<char>> {
    pieces_from(s, c, 0)
}

pub fn split_char(s: &str, c: char) -> (r: Vec<String>)
    ensures
        texts(r@) == pieces(s@, c),
{
    broadcast use lemma_texts_push, lemma_texts_empty;

    let v = chars_of(s);
    let mut out: Vec<String> = Vec::new();
    let mut i: usize = 0;
    assert(texts(out@) + pieces_from(v@, c, 0) =~= pieces(s@, c));
    loop
        invariant_except_break
            texts(out@) + pieces_from(v@, c, i as int) == pieces(s@, c),
        invariant
            i <= v.len(),
            v@ == s@,
        ensures
            texts(out@) == pieces(s@, c),
        decreases v.len() - i,
    {
        let e = next_char_at(&v, c, i);
        let ghost before = texts(out@);
        out.push(text_between(&v, i, e));
        if e >= v.len() {
            assert(v@.subrange(i as int, e as int) =~= v@.skip(i as int));
            assert(before + seq![v@.skip(i as int)] =~= before.push(v@.skip(i as int)));
            break;
        }
        assert(before + (seq![v@.subrange(i as int, e as int)] + pieces_from(v@, c, e + 1))
            =~= before.push(v@.subrange(i as int, e as int)) + pieces_from(v@, c, e + 1));
        i = e + 1;
    }
    out
}

/// A line without the carriage return that ends it, if any.
pub open spec fn without_cr(s: Seq<char>) -> Seq<char> {
    if s.len() > 0 && s.last() == '\r' {
        s.drop_last()
    } else {
        s
    }
}

/// The lines of a text, from index `i` on.
pub open spec fn lines_from(s: Seq<char>, i: int) -> Seq<Seq<char>>
    decreases s.len() - i,
{
    let e = next_char(s, '\n', i);
    if i < 0 || i >= s.len() {
        Seq::empty()
    } else if i <= e < s.len() {
        seq![without_cr(s.subrange(i, e))] + lines_from(s, e + 1)
    } else {
        seq![s.skip(i)]
    }
}

/// The lines of a text: a line feed, or a carriage return and a line feed,
/// ends each; the last line need not be ended.
pub open spec fn text_lines(s: Seq<char>) -> Seq<Seq<char>> {
    lines_from(s, 0)
}

pub fn lines(s: &str) -> (r: Vec<String>)
    ensures
        texts(r@) == text_lines(s@),
{
    broadcast use lemma_texts_push, lemma_texts_empty;

    let v = chars_of(s);
    let mut out: Vec<String> = Vec::new();
    let mut i: usize = 0;
    assert(texts(out@) + lines_from(v@, 0) =~= text_lines(s@));
    while i < v.len()
        invariant
            i <= v.len(),
            v@ == s@,
            texts(out@) + lines_from(v@, i as int) == text_lines(s@),
        decreases v.len() - i,
    {
        let e = next_char_at(&v, '\n', i);
        let ghost before = texts(out@);
        if e >= v.len() {
            out.push(text_between(&v, i, e));
            assert(v@.subrange(i as int, e as int) =~= v@.skip(i as int));
            assert(before + seq![v@.skip(i as int)] =~= before.push(v@.skip(i as int)));
            return out;
        }
        let end: usize = if e > i && v[e - 1] == '\r' { e - 1 } else { e };
        out.push(text_between(&v, i, end));
        assert(v@.subrange(i as int, end as int) =~= without_cr(v@.subrange(i as int, e as int)));
        assert(before + (seq![without_cr(v@.subrange(i as int, e as int))] + lines_from(v@, e + 1))
            =~= before.push(without_cr(v@.subrange(i as int, e as int))) + lines_from(v@, e + 1));
        i = e + 1;
    }
    assert(texts(out@) + lines_from(v@, i as int) =~= texts(out@));
    out
}

/// The text with each `p` from index `i` on, left to right, replaced by `q`.
pub open spec fn replaced_from(s: Seq<char>, p: Seq<char>, q: Seq<char>, i: int) -> Seq<char>
    decreases s.len() - i,
{
    if i < 0 || i >= s.len() {
        Seq::empty()
    } else if p.len() > 0 && occurs_at(s, p, i) {
        q + replaced_from(s, p, q, i + p.len())
    } else {
        seq![s[i]] + replaced_from(s, p, q, i + 1)
    }
}

/// The text with each `p`, left to right, replaced by `q`.
pub open spec fn replaced(s: Seq<char>, p: Seq<char>, q: Seq<char>) -> Seq<char> {
    replaced_from(s, p, q, 0)
}

pub fn replace(s: &str, p: &str, q: &str) -> (r: String)
    ensures
        r@ == replaced(s@, p@, q@),
{
    let v = chars_of(s);
    let w = chars_of(p);
    let mut out = String::new();
    let mut i: usize = 0;
    assert(out@ + replaced_from(v@, w@, q@, 0) =~= replaced(s@, p@, q@));
    while i < v.len()
        invariant
            i <= v.len(),
            v@ == s@,
            w@ == p@,
            out@ + replaced_from(v@, w@, q@, i as int) == replaced(s@, p@, q@),
        decreases v.len() - i,
    {
        let ghost before = out@;
        if w.len() > 0 && text_occurs_at(&v, &w, i) {
            push_text(&mut out, q);
            assert(before + (q@ + replaced_from(v@, w@, q@, i + w.len())) =~= before + q@
                + replaced_from(v@, w@, q@, i + w.len()));
            i += w.len();
        } else {
            out.push(v[i]);
            assert(before + (seq![v@[i as int]] + replaced_from(v@, w@, q@, i + 1))
                =~= before.push(v@[i as int]) + replaced_from(v@, w@, q@, i + 1));
            i += 1;
        }
    }
    assert(out@ + replaced_from(v@, w@, q@, i as int) =~= out@);
    out
}

/// The parts, with `sep` between each two.
pub open spec fn joined(parts: Seq<Seq<char>>, sep: Seq<char>) -> Seq<char>
    decreases parts.len(),
{
    if parts.len() == 0 {
        Seq::empty()
    } else if parts.len() == 1 {
        parts[0]
    } else {
        joined(parts.drop_last(), sep) + sep + parts.last()
    }
}

pub fn join(parts: &Vec<String>, sep: &str) -> (r: String)
    ensures
        r@ == joined(texts(parts@), sep@),
{
    let mut out = String::new();
    let mut i: usize = 0;
    let ghost all = texts(parts@);
    assert(all.take(0) =~= Seq::<Seq<char>>::empty());
    while i < parts.len()
        invariant
            i <= parts.len(),
            all == texts(parts@),
            out@ == joined(all.take(i as int), sep@),
        decreases parts.len() - i,
    {
        assert(all.take(i + 1).drop_last() =~= all.take(i as int));
        if i > 0 {
            push_text(&mut out, sep);
        }
        push_text(&mut out, parts[i].as_str());
        assert(out@ =~= joined(all.take(i + 1), sep@));
        i += 1;
    }
    assert(all.take(i as int) =~= all);
    out
}

/// Appends a string to a list.
pub fn push_item(out: &mut Vec<String>, item: String)
    ensures
        texts(final(out)@) == texts(old(out)@).push(item@),
        final(out)@ == old(out)@.push(item),
{
    proof {
        lemma_texts_push(out@, item);
    }
    out.push(item);
}

/// Appends copies of the strings of a list.
pub fn push_list(out: &mut Vec<String>, more: &Vec<String>)
    ensures
        texts(final(out)@) == texts(old(out)@) + texts(more@),
{
    broadcast use lemma_texts_push;

    let mut i: usize = 0;
    while i < more.len()
        invariant
            i <= more.len(),
            texts(out@) == texts(old(out)@) + texts(more@).take(i as int),
        decreases more.len() - i,
    {
        let item = copy_text(more[i].as_str());
        push_item(out, item);
        assert(item@ == texts(more@)[i as int]);
        i += 1;
        assert(texts(out@) =~= texts(old(out)@) + texts(more@).take(i as int));
    }
    assert(texts(more@).take(i as int) =~= texts(more@));
}

/// Copies of the strings from index `from` up to `to`.
pub fn copy_list(v: &Vec<String>, from: usize, to: usize) -> (r: Vec<String>)
    requires
        from <= to <= v.len(),
    ensures
        texts(r@) == texts(v@).subrange(from as int, to as int),
{
    broadcast use lemma_texts_push, lemma_texts_empty;

    let mut out: Vec<String> = Vec::new();
    let mut i: usize = from;
    while i < to
        invariant
            from <= i <= to <= v.len(),
            texts(out@) == texts(v@).subrange(from as int, i as int),
        decreases to - i,
    {
        let item = copy_text(v[i].as_str());
        push_item(&mut out, item);
        assert(item@ == texts(v@)[i as int]);
        i += 1;
        assert(texts(out@) =~= texts(v@).subrange(from as int, i as int));
    }
    out
}

// ---------------------------------------------------------------------------
// Numbers
// ---------------------------------------------------------------------------

/// The decimal digit of a number below ten.
pub open spec fn digit_char(d: nat) -> char {
    if d == 0 { '0' } else if d == 1 { '1' } else if d == 2 { '2' } else if d == 3 { '3' }
    else if d == 4 { '4' } else if d == 5 { '5' } else if d == 6 { '6' } else if d == 7 { '7' }
    else if d == 8 { '8' } else { '9' }
}

/// The decimal form of a number.
pub open spec fn decimal(n: nat) -> Seq<char>
    decreases n,
{
    if n < 10 {
        seq![digit_char(n)]
    } else {
        decimal(n / 10).push(digit_char(n % 10))
    }
}

fn digit_of(d: u64) -> (r: char)
    requires
        d < 10,
    ensures
        r == digit_char(d as nat),
{
    if d == 0 { '0' } else if d == 1 { '1' } else if d == 2 { '2' } else if d == 3 { '3' }
    else if d == 4 { '4' } else if d == 5 { '5' } else if d == 6 { '6' } else if d == 7 { '7' }
    else if d == 8 { '8' } else { '9' }
}

pub fn decimal_text(n: u64) -> (r: String)
    ensures
        r@ == decimal(n as nat),
    decreases n,
{
    if n < 10 {
        let mut out = String::new();
        out.push(digit_of(n));
        assert(out@ =~= seq![digit_char(n as nat)]);
        out
    } else {
        let mut out = decimal_text(n / 10);
        out.push(digit_of(n % 10));
        out
    }
}

/// The value of a decimal digit.
pub open spec fn digit_value(c: char) -> nat {
    (c as u32 - '0' as u32) as nat
}

/// All characters are decimal digits.
pub open spec fn all_digits(s: Seq<char>) -> bool {
    forall|i: int| 0 <= i < s.len() ==> is_digit(#[trigger] s[i])
}

/// The value of a text of decimal digits.
pub open spec fn digits_value(s: Seq<char>) -> nat
    decreases s.len(),
{
    if s.len() == 0 {
        0
    } else {
        digits_value(s.drop_last()) * 10 + digit_value(s.last())
    }
}

/// The digits of a number: what follows a leading plus sign, if any.
pub open spec fn number_digits(s: Seq<char>) -> Seq<char> {
    if s.len() > 0 && s[0] == '+' {
        s.skip(1)
    } else {
        s
    }
}

/// The number that a text writes down in decimal, if it is at most `max`.
pub open spec fn parsed_number(s: Seq<char>, max: nat) -> Option<nat> {
    let d = number_digits(s);
    if d.len() > 0 && all_digits(d) && digits_value(d) <= max {
        Some(digits_value(d))
    } else {
        None
    }
}

proof fn lemma_digits_value_grows(s: Seq<char>, i: int)
    requires
        0 <= i <= s.len(),
    ensures
        digits_value(s.take(i)) <= digits_value(s),
    decreases s.len() - i,
{
    if i < s.len() {
        lemma_digits_value_grows(s, i + 1);
        assert(s.take(i + 1).drop_last() =~= s.take(i));
    } else {
        assert(s.take(i) =~= s);
    }
}

pub fn parse_number(s: &str, max: u64) -> (r: Option<u64>)
    ensures
        match r {
            Some(n) => parsed_number(s@, max as nat) == Some(n as nat),
            None => parsed_number(s@, max as nat) is None,
        },
{
    let v = chars_of(s);
    let start: usize = if v.len() > 0 && v[0] == '+' { 1 } else { 0 };
    let ghost d = number_digits(s@);
    assert(d =~= v@.subrange(start as int, v.len() as int));
    if start >= v.len() {
        return None;
    }
    let mut value: u64 = 0;
    let mut i: usize = start;
    while i < v.len()
        invariant
            start <= i <= v.len(),
            v@ == s@,
            d == number_digits(s@),
            d == v@.subrange(start as int, v.len() as int),
            value == digits_value(d.take(i - start)),
            value <= max,
            forall|j: int| 0 <= j < i - start ==> is_digit(#[trigger] d[j]),
        decreases v.len() - i,
    {
        let c = v[i];
        assert(d[i - start] == c);
        if !char_is_digit(c) {
            return None;
        }
        let digit: u64 = c as u64 - '0' as u64;
        proof {
            assert(d.take(i - start + 1).drop_last() =~= d.take(i - start));
            assert(d.take(i - start + 1).last() == c);
            lemma_digits_value_grows(d, i - start + 1);
        }
        if digit > max || value > (max - digit) / 10 {
            assert(value * 10 + digit > max);
            return None;
        }
        value = value * 10 + digit;
        i += 1;
    }
    assert(d.take(i - start) =~= d);
    Some(value)
}

} // verus!
