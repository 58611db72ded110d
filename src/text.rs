//! Character-level text handling: trimming, first lines, UTF-8 width clamping.
use vstd::prelude::*;
use vstd::string::StrSliceExecFns;
use vstd::string::StringExecFns;

verus! {

/// Whether a character carries the Unicode `White_Space` property, the set
/// that `char::is_whitespace` tests and `str::trim` strips.
pub open spec fn white_space(c: char) -> bool {
    let v = c as u32;
    (0x09 <= v <= 0x0D) || v == 0x20 || v == 0x85 || v == 0xA0 || v == 0x1680 || (0x2000 <= v <= 0x200A)
        || v == 0x2028 || v == 0x2029 || v == 0x202F || v == 0x205F || v == 0x3000
}

pub fn is_white_space(c: char) -> (r: bool)
    ensures
        r == white_space(c),
{
    let v = c as u32;
    (0x09 <= v && v <= 0x0D) || v == 0x20 || v == 0x85 || v == 0xA0 || v == 0x1680 || (0x2000 <= v && v
        <= 0x200A) || v == 0x2028 || v == 0x2029 || v == 0x202F || v == 0x205F || v == 0x3000
}

/// Number of leading characters of `s` that satisfy `p`.
pub open spec fn prefix_run(s: Seq<char>, p: spec_fn(char) -> bool) -> nat
    decreases s.len(),
{
    if s.len() > 0 && p(s[0]) {
        1 + prefix_run(s.drop_first(), p)
    } else {
        0
    }
}

/// Number of trailing characters of `s` that satisfy `p`.
pub open spec fn suffix_run(s: Seq<char>, p: spec_fn(char) -> bool) -> nat
    decreases s.len(),
{
    if s.len() > 0 && p(s.last()) {
        1 + suffix_run(s.drop_last(), p)
    } else {
        0
    }
}

/// The white-space test, as a predicate.
pub open spec fn is_ws_pred() -> spec_fn(char) -> bool {
    |c: char| white_space(c)
}

/// Any character but a line feed.
pub open spec fn not_newline() -> spec_fn(char) -> bool {
    |c: char| c != '\n'
}

/// Every character of `s` is white space (this includes the empty text).
pub open spec fn is_blank(s: Seq<char>) -> bool {
    forall|k: int| 0 <= k < s.len() ==> white_space(#[trigger] s[k])
}

/// `s` with leading and trailing white space removed.
pub open spec fn trim_spec(s: Seq<char>) -> Seq<char> {
    let a = prefix_run(s, is_ws_pred());
    let rest = s.subrange(a as int, s.len() as int);
    rest.subrange(0, rest.len() - suffix_run(rest, is_ws_pred()))
}

/// The text before the first line feed, without a carriage return that
/// directly precedes that line feed.
pub open spec fn first_line_spec(s: Seq<char>) -> Seq<char> {
    let e = prefix_run(s, not_newline());
    let line = s.subrange(0, e as int);
    if e < s.len() && line.len() > 0 && line.last() == '\r' {
        line.drop_last()
    } else {
        line
    }
}

/// Number of bytes that `c` takes in UTF-8.
pub open spec fn utf8_width_spec(c: char) -> nat {
    let v = c as u32;
    if v < 0x80 {
        1
    } else if v < 0x800 {
        2
    } else if v < 0x10000 {
        3
    } else {
        4
    }
}

/// How many leading characters of `s` fit, as whole characters, into
/// `budget` bytes of UTF-8.
pub open spec fn clamp_count(s: Seq<char>, budget: nat) -> nat
    decreases s.len(),
{
    if s.len() > 0 && utf8_width_spec(s[0]) <= budget {
        1 + clamp_count(s.drop_first(), (budget - utf8_width_spec(s[0])) as nat)
    } else {
        0
    }
}

/// The longest prefix of `s` whose UTF-8 encoding takes at most `budget` bytes.
pub open spec fn clamp_spec(s: Seq<char>, budget: nat) -> Seq<char> {
    s.subrange(0, clamp_count(s, budget) as int)
}

/// Every character of `s` is ASCII, so takes one byte in UTF-8.
pub open spec fn all_ascii(s: Seq<char>) -> bool {
    forall|k: int| 0 <= k < s.len() ==> (#[trigger] s[k] as u32) < 0x80
}

proof fn lemma_prefix_run(s: Seq<char>, p: spec_fn(char) -> bool, i: int)
    requires
        0 <= i <= s.len(),
        forall|k: int| 0 <= k < i ==> p(#[trigger] s[k]),
        i == s.len() || !p(s[i]),
    ensures
        prefix_run(s, p) == i,
    decreases i,
{
    if i > 0 {
        let t = s.drop_first();
        assert forall|k: int| 0 <= k < i - 1 implies p(#[trigger] t[k]) by {
            assert(t[k] == s[k + 1]);
        }
        if i < s.len() {
            assert(t[i - 1] == s[i]);
        }
        lemma_prefix_run(t, p, i - 1);
    }
}

proof fn lemma_suffix_run(s: Seq<char>, p: spec_fn(char) -> bool, j: int)
    requires
        0 <= j <= s.len(),
        forall|k: int| j <= k < s.len() ==> p(#[trigger] s[k]),
        j == 0 || !p(s[j - 1]),
    ensures
        suffix_run(s, p) == s.len() - j,
    decreases s.len() - j,
{
    if j < s.len() {
        let t = s.drop_last();
        assert forall|k: int| j <= k < t.len() implies p(#[trigger] t[k]) by {
            assert(t[k] == s[k]);
        }
        if j > 0 {
            assert(t[j - 1] == s[j - 1]);
        }
        assert(p(s[s.len() - 1]));
        lemma_suffix_run(t, p, j);
    }
}

/// Width of `c` in UTF-8, as `char::len_utf8` documents it.
pub fn utf8_width(c: char) -> (r: usize)
    ensures
        r == utf8_width_spec(c),
{
    let v = c as u32;
    if v < 0x80 {
        1
    } else if v < 0x800 {
        2
    } else if v < 0x10000 {
        3
    } else {
        4
    }
}

/// Removes leading and trailing white space.
pub fn trim_text(s: &str) -> (r: String)
    ensures
        r@ == trim_spec(s@),
        r@.len() == 0 <==> is_blank(s@),
{
    let n = s.unicode_len();
    let mut i: usize = 0;
    while i < n && is_white_space(s.get_char(i))
        invariant
            n == s@.len(),
            i <= n,
            forall|k: int| 0 <= k < i ==> white_space(#[trigger] s@[k]),
        decreases n - i,
    {
        i = i + 1;
    }
    proof {
        assert forall|k: int| 0 <= k < i implies is_ws_pred()(#[trigger] s@[k]) by {}
        lemma_prefix_run(s@, is_ws_pred(), i as int);
    }
    let mut j: usize = n;
    while j > i && is_white_space(s.get_char(j - 1))
        invariant
            n == s@.len(),
            i <= j <= n,
            forall|k: int| j <= k < n ==> white_space(#[trigger] s@[k]),
        decreases j,
    {
        j = j - 1;
    }
    proof {
        let rest = s@.subrange(i as int, n as int);
        assert forall|k: int| j - i <= k < rest.len() implies is_ws_pred()(#[trigger] rest[k]) by {
            assert(rest[k] == s@[k + i]);
        }
        if j > i {
            assert(rest[j - i - 1] == s@[j - 1]);
        }
        lemma_suffix_run(rest, is_ws_pred(), j - i);
        assert(rest.subrange(0, j - i) =~= s@.subrange(i as int, j as int));
        if i == n {
            assert(is_blank(s@));
        }
        if is_blank(s@) && i < n {
            assert(white_space(s@[i as int]));
        }
    }
    String::from_str(s.substring_char(i, j))
}

/// Where the first line of `s` ends: the position of its first line feed,
/// or the length of `s` when it has none.
pub fn line_end(s: &str) -> (e: usize)
    ensures
        e == prefix_run(s@, not_newline()),
        e <= s@.len(),
{
    let n = s.unicode_len();
    let mut e: usize = 0;
    while e < n && s.get_char(e) != '\n'
        invariant
            n == s@.len(),
            e <= n,
            forall|k: int| 0 <= k < e ==> #[trigger] s@[k] != '\n',
        decreases n - e,
    {
        e = e + 1;
    }
    proof {
        assert forall|k: int| 0 <= k < e implies not_newline()(#[trigger] s@[k]) by {}
        lemma_prefix_run(s@, not_newline(), e as int);
    }
    e
}

/// The first line of `s`, as the first item of `str::lines` gives it
/// (the empty text when `s` is empty).
pub fn first_line(s: &str) -> (r: String)
    ensures
        r@ == first_line_spec(s@),
{
    let n = s.unicode_len();
    let e = line_end(s);
    if e < n && e > 0 && s.get_char(e - 1) == '\r' {
        proof {
            assert(s@.subrange(0, e as int).drop_last() =~= s@.subrange(0, e - 1));
        }
        String::from_str(s.substring_char(0, e - 1))
    } else {
        String::from_str(s.substring_char(0, e))
    }
}

/// The first line of `s` that is not blank, trimmed; the empty text when
/// every line is blank.
pub open spec fn first_filled_line_spec(s: Seq<char>) -> Seq<char>
    decreases s.len(),
{
    let l = trim_spec(first_line_spec(s));
    let e = prefix_run(s, not_newline());
    if l.len() > 0 {
        l
    } else if e < s.len() {
        first_filled_line_spec(s.subrange(e as int + 1, s.len() as int))
    } else {
        Seq::empty()
    }
}

/// The first line of `s` that is not blank, trimmed.
pub fn first_filled_line(s: &str) -> (r: String)
    ensures
        r@ == first_filled_line_spec(s@),
{
    let n = s.unicode_len();
    let mut p: usize = 0;
    assert(s@.subrange(0, n as int) =~= s@);
    while p < n
        invariant
            p <= n,
            n == s@.len(),
            first_filled_line_spec(s@) == first_filled_line_spec(s@.subrange(p as int, n as int)),
        decreases n - p,
    {
        let rest = s.substring_char(p, n);
        let line = first_line(rest);
        let t = trim_text(line.as_str());
        if !t.as_str().is_empty() {
            return t;
        }
        let e = line_end(rest);
        if e == rest.unicode_len() {
            return t;
        }
        proof {
            assert(rest@.subrange(e + 1, rest@.len() as int) =~= s@.subrange(p + e + 1, n as int));
        }
        p = p + e + 1;
    }
    proof {
        let z = s@.subrange(p as int, n as int);
        assert(z.len() == 0);
        assert(first_line_spec(z) =~= z);
        assert(trim_spec(z).len() == 0);
    }
    String::new()
}

/// Keeps the longest prefix of `s` whose UTF-8 encoding fits in `budget`
/// bytes; a character is never split.
pub fn clamp_utf8(s: &str, budget: usize) -> (r: String)
    ensures
        r@ == clamp_spec(s@, budget as nat),
{
    let n = s.unicode_len();
    let mut i: usize = 0;
    let mut left: usize = budget;
    assert(s@.subrange(0, n as int) =~= s@);
    while i < n && utf8_width(s.get_char(i)) <= left
        invariant
            n == s@.len(),
            i <= n,
            left <= budget,
            clamp_count(s@, budget as nat) == i + clamp_count(s@.subrange(i as int, n as int), left as nat),
        decreases n - i,
    {
        let w = utf8_width(s.get_char(i));
        proof {
            let t = s@.subrange(i as int, n as int);
            assert(t.drop_first() =~= s@.subrange(i + 1, n as int));
        }
        left = left - w;
        i = i + 1;
    }
    proof {
        let t = s@.subrange(i as int, n as int);
        if i < n {
            assert(t[0] == s@[i as int]);
        }
    }
    String::from_str(s.substring_char(0, i))
}

/// On text made of ASCII characters only, the clamp keeps `budget` characters.
pub proof fn lemma_clamp_ascii(s: Seq<char>, budget: nat)
    requires
        all_ascii(s),
    ensures
        clamp_count(s, budget) == if s.len() < budget { s.len() } else { budget },
    decreases s.len(),
{
    if s.len() > 0 && budget > 0 {
        let t = s.drop_first();
        assert forall|k: int| 0 <= k < t.len() implies (#[trigger] t[k] as u32) < 0x80 by {
            assert(t[k] == s[k + 1]);
        }
        assert((s[0] as u32) < 0x80);
        lemma_clamp_ascii(t, (budget - 1) as nat);
    }
}

/// Whether two texts hold the same characters.
pub fn same_text(a: &str, b: &str) -> (r: bool)
    ensures
        r == (a@ == b@),
{
    let n = a.unicode_len();
    let m = b.unicode_len();
    if n != m {
        return false;
    }
    let mut i: usize = 0;
    while i < n
        invariant
            n == a@.len(),
            n == b@.len(),
            i <= n,
            forall|k: int| 0 <= k < i ==> a@[k] == b@[k],
        decreases n - i,
    {
        if a.get_char(i) != b.get_char(i) {
            return false;
        }
        i = i + 1;
    }
    assert(a@ =~= b@);
    true
}

/// `a` sorts strictly before `b`, comparing characters by code point (the
/// order of their UTF-8 bytes).
pub open spec fn text_lt(a: Seq<char>, b: Seq<char>) -> bool
    decreases a.len(),
{
    if b.len() == 0 {
        false
    } else if a.len() == 0 {
        true
    } else if a[0] != b[0] {
        (a[0] as u32) < (b[0] as u32)
    } else {
        text_lt(a.drop_first(), b.drop_first())
    }
}

/// The order on names is transitive.
pub proof fn lemma_text_lt_transitive(a: Seq<char>, b: Seq<char>, c: Seq<char>)
    requires
        text_lt(a, b),
        text_lt(b, c),
    ensures
        text_lt(a, c),
    decreases a.len(),
{
    if a.len() > 0 && b.len() > 0 && c.len() > 0 && a[0] == b[0] && b[0] == c[0] {
        lemma_text_lt_transitive(a.drop_first(), b.drop_first(), c.drop_first());
    }
}

/// No name sorts before itself.
pub proof fn lemma_text_lt_irreflexive(a: Seq<char>)
    ensures
        !text_lt(a, a),
    decreases a.len(),
{
    if a.len() > 0 {
        lemma_text_lt_irreflexive(a.drop_first());
    }
}

/// Whether `a` sorts strictly before `b`.
pub fn text_less(a: &str, b: &str) -> (r: bool)
    ensures
        r == text_lt(a@, b@),
{
    let n = a.unicode_len();
    let m = b.unicode_len();
    let mut i: usize = 0;
    proof {
        assert(a@.subrange(0, n as int) =~= a@);
        assert(b@.subrange(0, m as int) =~= b@);
    }
    while i < n && i < m && a.get_char(i) == b.get_char(i)
        invariant
            n == a@.len(),
            m == b@.len(),
            i <= n,
            i <= m,
            text_lt(a@, b@) == text_lt(a@.subrange(i as int, n as int), b@.subrange(i as int, m as int)),
        decreases n - i,
    {
        proof {
            assert(a@.subrange(i as int, n as int).drop_first() =~= a@.subrange(i + 1, n as int));
            assert(b@.subrange(i as int, m as int).drop_first() =~= b@.subrange(i + 1, m as int));
        }
        i = i + 1;
    }
    if i == m {
        false
    } else if i == n {
        true
    } else {
        (a.get_char(i) as u32) < (b.get_char(i) as u32)
    }
}

} // verus!
