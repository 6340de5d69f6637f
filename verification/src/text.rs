use vstd::prelude::*;

verus! {

/// The characters of `s`, in order.
pub fn chars_of(s: &str) -> (v: Vec<char>)
    ensures
        v@ == s@,
{
    broadcast use vstd::string::group_string_axioms;
    let mut v: Vec<char> = Vec::new();
    for c in it: s.chars()
        invariant
            v@ == it.seq().take(it.index() as int),
            it.seq() == s@,
    {
        v.push(c);
    }
    v
}

} // verus!

verus! {

/// Unicode `White_Space`: the characters that `char::is_whitespace` accepts.
pub open spec fn is_white(c: char) -> bool {
    let u = c as u32;
    ||| 0x09 <= u <= 0x0D
    ||| u == 0x20
    ||| u == 0x85
    ||| u == 0xA0
    ||| u == 0x1680
    ||| 0x2000 <= u <= 0x200A
    ||| u == 0x2028
    ||| u == 0x2029
    ||| u == 0x202F
    ||| u == 0x205F
    ||| u == 0x3000
}

/// Whether `c` is Unicode white space.
pub fn is_whitespace(c: char) -> (b: bool)
    ensures
        b == is_white(c),
{
    let u = c as u32;
    (0x09 <= u && u <= 0x0D) || u == 0x20 || u == 0x85 || u == 0xA0 || u == 0x1680 || (0x2000
        <= u && u <= 0x200A) || u == 0x2028 || u == 0x2029 || u == 0x202F || u == 0x205F || u
        == 0x3000
}

/// `s` without its leading and trailing white space (what `str::trim` gives).
pub open spec fn trimmed(s: Seq<char>) -> Seq<char>
    decreases s.len(),
{
    if s.len() > 0 && is_white(s[0]) {
        trimmed(s.drop_first())
    } else if s.len() > 0 && is_white(s.last()) {
        trimmed(s.drop_last())
    } else {
        s
    }
}

/// `trimmed` of a middle part: strips from the front first, then the back.
proof fn lemma_trimmed_range(s: Seq<char>, lo: int, hi: int)
    requires
        0 <= lo <= hi <= s.len(),
    ensures
        (forall|i: int| lo <= i < hi && (forall|j: int| lo <= j < i ==> is_white(s[j])) && !is_white(s[i])
            ==> trimmed(s.subrange(lo, hi)) == trimmed(s.subrange(i, hi))),
    decreases hi - lo,
{
    assert forall|i: int| lo <= i < hi && (forall|j: int| lo <= j < i ==> is_white(s[j])) && !is_white(
        s[i]) implies trimmed(s.subrange(lo, hi)) == trimmed(s.subrange(i, hi)) by {
        if i > lo {
            assert(is_white(s[lo]));
            assert(s.subrange(lo, hi).drop_first() =~= s.subrange(lo + 1, hi));
            lemma_trimmed_range(s, lo + 1, hi);
        }
    }
}

/// Trimming a sequence whose first character is not white only cuts the back.
proof fn lemma_trimmed_back(s: Seq<char>, hi: int, lo: int)
    requires
        0 <= lo < hi <= s.len(),
        !is_white(s[lo]),
    ensures
        (forall|k: int| lo < k <= hi && (forall|j: int| k <= j < hi ==> is_white(s[j])) && !is_white(s[k - 1])
            ==> trimmed(s.subrange(lo, hi)) == s.subrange(lo, k)),
    decreases hi - lo,
{
    assert forall|k: int| lo < k <= hi && (forall|j: int| k <= j < hi ==> is_white(s[j])) && !is_white(
        s[k - 1]) implies trimmed(s.subrange(lo, hi)) == s.subrange(lo, k) by {
        let t = s.subrange(lo, hi);
        assert(t[0] == s[lo]);
        if k < hi {
            assert(t.last() == s[hi - 1]);
            assert(is_white(s[hi - 1]));
            assert(t.drop_last() =~= s.subrange(lo, hi - 1));
            lemma_trimmed_back(s, hi - 1, lo);
        }
    }
}

/// The string `s` without leading and trailing white space.
pub fn trim(s: &str) -> (r: String)
    ensures
        r@ == trimmed(s@),
{
    let cs = chars_of(s);
    let n = cs.len();
    let mut lo: usize = 0;
    while lo < n && is_whitespace(cs[lo])
        invariant
            cs@ == s@,
            n == cs.len(),
            lo <= n,
            forall|j: int| 0 <= j < lo ==> is_white(cs@[j]),
        decreases n - lo,
    {
        lo = lo + 1;
    }
    if lo == n {
        proof {
            lemma_all_white_trims_to_empty(s@, 0);
            assert(s@.subrange(0, s@.len() as int) =~= s@);
        }
        return String::new();
    }
    let mut hi: usize = n;
    while hi > lo && is_whitespace(cs[hi - 1])
        invariant
            cs@ == s@,
            n == cs.len(),
            lo < n,
            lo <= hi <= n,
            !is_white(cs@[lo as int]),
            forall|j: int| hi <= j < n ==> is_white(cs@[j]),
        decreases hi,
    {
        hi = hi - 1;
    }
    proof {
        lemma_trimmed_range(s@, 0, s@.len() as int);
        lemma_trimmed_back(s@, s@.len() as int, lo as int);
        assert(s@.subrange(0, s@.len() as int) =~= s@);
    }
    s.substring_char(lo, hi).to_owned()
}

/// A sequence made only of white space trims to nothing.
proof fn lemma_all_white_trims_to_empty(s: Seq<char>, lo: int)
    requires
        0 <= lo <= s.len(),
        forall|j: int| lo <= j < s.len() ==> is_white(s[j]),
    ensures
        trimmed(s.subrange(lo, s.len() as int)) == Seq::<char>::empty(),
    decreases s.len() - lo,
{
    let t = s.subrange(lo, s.len() as int);
    if lo < s.len() {
        assert(t[0] == s[lo]);
        assert(t.drop_first() =~= s.subrange(lo + 1, s.len() as int));
        lemma_all_white_trims_to_empty(s, lo + 1);
    } else {
        assert(t =~= Seq::<char>::empty());
    }
}

} // verus!

verus! {

/// `needle` occurs in `hay` at position `i`.
pub open spec fn occurs_at(hay: Seq<char>, needle: Seq<char>, i: int) -> bool {
    0 <= i && i + needle.len() <= hay.len() && hay.subrange(i, i + needle.len()) == needle
}

/// `needle` occurs somewhere in `hay` (what `str::contains` with a string pattern tests).
pub open spec fn has_substring(hay: Seq<char>, needle: Seq<char>) -> bool {
    exists|i: int| occurs_at(hay, needle, i)
}

fn matches_at(hay: &Vec<char>, needle: &Vec<char>, i: usize) -> (b: bool)
    requires
        i + needle.len() <= hay.len(),
    ensures
        b == occurs_at(hay@, needle@, i as int),
{
    let m = needle.len();
    let mut k: usize = 0;
    while k < m
        invariant
            m == needle.len(),
            i + m <= hay.len(),
            k <= m,
            forall|j: int| 0 <= j < k ==> hay@[i + j] == needle@[j],
        decreases m - k,
    {
        if hay[i + k] != needle[k] {
            assert(hay@.subrange(i as int, i + m)[k as int] != needle@[k as int]);
            return false;
        }
        k = k + 1;
    }
    assert(hay@.subrange(i as int, i + m) =~= needle@);
    true
}

/// Whether `needle` occurs in `hay`.
pub fn contains_str(hay: &str, needle: &str) -> (b: bool)
    ensures
        b == has_substring(hay@, needle@),
{
    let h = chars_of(hay);
    let nd = chars_of(needle);
    if nd.len() > h.len() {
        assert forall|i: int| !occurs_at(hay@, needle@, i) by {}
        return false;
    }
    let last = h.len() - nd.len();
    let mut i: usize = 0;
    while i <= last
        invariant
            h@ == hay@,
            nd@ == needle@,
            last == h.len() - nd.len(),
            nd.len() <= h.len(),
            i <= last + 1,
            forall|j: int| 0 <= j < i ==> !occurs_at(hay@, needle@, j),
        decreases last + 1 - i,
    {
        if matches_at(&h, &nd, i) {
            return true;
        }
        if i == last {
            assert forall|j: int| !occurs_at(hay@, needle@, j) by {
                if 0 <= j <= i {
                }
            }
            return false;
        }
        i = i + 1;
    }
    assert forall|j: int| !occurs_at(hay@, needle@, j) by {
        if 0 <= j < i {
        }
    }
    false
}

/// ASCII lower case of one character; other characters are left alone.
pub open spec fn ascii_lower(c: char) -> u32 {
    let u = c as u32;
    if 0x41 <= u <= 0x5A {
        (u + 32) as u32
    } else {
        u
    }
}

/// Equal up to ASCII case (what `str::eq_ignore_ascii_case` tests).
pub open spec fn eq_ascii_case(a: Seq<char>, b: Seq<char>) -> bool {
    a.len() == b.len() && forall|i: int| 0 <= i < a.len() ==> ascii_lower(a[i]) == ascii_lower(b[i])
}

fn lower_ascii(c: char) -> (u: u32)
    ensures
        u == ascii_lower(c),
{
    let u = c as u32;
    if 0x41 <= u && u <= 0x5A {
        u + 32
    } else {
        u
    }
}

/// Whether `a` and `b` are equal up to ASCII case.
pub fn eq_ignore_ascii_case(a: &str, b: &str) -> (r: bool)
    ensures
        r == eq_ascii_case(a@, b@),
{
    let x = chars_of(a);
    let y = chars_of(b);
    if x.len() != y.len() {
        return false;
    }
    let n = x.len();
    let mut i: usize = 0;
    while i < n
        invariant
            x@ == a@,
            y@ == b@,
            n == x.len(),
            n == y.len(),
            i <= n,
            forall|j: int| 0 <= j < i ==> ascii_lower(x@[j]) == ascii_lower(y@[j]),
        decreases n - i,
    {
        if lower_ascii(x[i]) != lower_ascii(y[i]) {
            return false;
        }
        i = i + 1;
    }
    true
}

/// Lexicographic order on character sequences by code point, which is the
/// order of `String` (byte order of UTF-8 agrees with code point order).
pub open spec fn lex_le(a: Seq<char>, b: Seq<char>) -> bool
    decreases a.len(),
{
    if a.len() == 0 {
        true
    } else if b.len() == 0 {
        false
    } else if a[0] < b[0] {
        true
    } else if a[0] == b[0] {
        lex_le(a.drop_first(), b.drop_first())
    } else {
        false
    }
}

/// `lex_le` is total.
pub proof fn lemma_lex_total(a: Seq<char>, b: Seq<char>)
    ensures
        lex_le(a, b) || lex_le(b, a),
    decreases a.len(),
{
    if a.len() > 0 && b.len() > 0 {
        if a[0] == b[0] {
            lemma_lex_total(a.drop_first(), b.drop_first());
        }
    }
}

/// `lex_le` is transitive.
pub proof fn lemma_lex_trans(a: Seq<char>, b: Seq<char>, c: Seq<char>)
    requires
        lex_le(a, b),
        lex_le(b, c),
    ensures
        lex_le(a, c),
    decreases a.len(),
{
    if a.len() > 0 && b.len() > 0 && c.len() > 0 && a[0] == b[0] && b[0] == c[0] {
        lemma_lex_trans(a.drop_first(), b.drop_first(), c.drop_first());
    }
}

/// `lex_le` both ways means equal.
pub proof fn lemma_lex_antisym(a: Seq<char>, b: Seq<char>)
    requires
        lex_le(a, b),
        lex_le(b, a),
    ensures
        a == b,
    decreases a.len(),
{
    if a.len() > 0 && b.len() > 0 {
        lemma_lex_antisym(a.drop_first(), b.drop_first());
        assert(a =~= seq![a[0]] + a.drop_first());
        assert(b =~= seq![b[0]] + b.drop_first());
    } else {
        assert(a =~= b);
    }
}

/// Whether `a <= b` in `lex_le`, on characters already read.
pub fn lex_le_chars(a: &Vec<char>, b: &Vec<char>) -> (r: bool)
    ensures
        r == lex_le(a@, b@),
{
    let mut i: usize = 0;
    assert(a@.skip(0) =~= a@);
    assert(b@.skip(0) =~= b@);
    while i < a.len() && i < b.len() && a[i] == b[i]
        invariant
            i <= a.len(),
            i <= b.len(),
            lex_le(a@, b@) == lex_le(a@.skip(i as int), b@.skip(i as int)),
        decreases a.len() - i,
    {
        proof {
            let x = a@.skip(i as int);
            let y = b@.skip(i as int);
            assert(x.drop_first() =~= a@.skip(i + 1));
            assert(y.drop_first() =~= b@.skip(i + 1));
        }
        i = i + 1;
    }
    let ghost x = a@.skip(i as int);
    let ghost y = b@.skip(i as int);
    if i == a.len() {
        true
    } else if i == b.len() {
        false
    } else {
        assert(x[0] == a@[i as int]);
        assert(y[0] == b@[i as int]);
        a[i] < b[i]
    }
}

} // verus!

verus! {

/// The text of an optional string.
pub open spec fn opt_text(o: Option<String>) -> Option<Seq<char>> {
    match o {
        Some(s) => Some(s@),
        None => None,
    }
}

} // verus!

verus! {

/// Whether `a` and `b` are the same text.
pub fn same_text(a: &str, b: &str) -> (r: bool)
    ensures
        r == (a@ == b@),
{
    a.to_owned() == b.to_owned()
}

} // verus!
