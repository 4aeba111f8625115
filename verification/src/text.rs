//! Text primitives over the character view of strings.
//!
//! Every string is reasoned about through its `Seq<char>` view. Unicode
//! lower-casing, which std performs for us, sits behind a small wrapper;
//! trimming, substring search, line splitting, decimal and hexadecimal
//! rendering, comparison and character scans are written and proved here.

use vstd::prelude::*;

verus! {

// ---------------------------------------------------------------------------
// Specifications
// ---------------------------------------------------------------------------

/// Unicode `White_Space`, the set `char::is_whitespace` and `str::trim` use.
pub open spec fn is_unicode_whitespace(c: char) -> bool {
    let n = c as u32;
    ||| 0x09 <= n <= 0x0D
    ||| n == 0x20
    ||| n == 0x85
    ||| n == 0xA0
    ||| n == 0x1680
    ||| 0x2000 <= n <= 0x200A
    ||| n == 0x2028
    ||| n == 0x2029
    ||| n == 0x202F
    ||| n == 0x205F
    ||| n == 0x3000
}

/// `s` without its leading whitespace.
pub open spec fn strip_leading(s: Seq<char>) -> Seq<char>
    decreases s.len(),
{
    if s.len() > 0 && is_unicode_whitespace(s[0]) {
        strip_leading(s.drop_first())
    } else {
        s
    }
}

/// `s` without its trailing whitespace.
pub open spec fn strip_trailing(s: Seq<char>) -> Seq<char>
    decreases s.len(),
{
    if s.len() > 0 && is_unicode_whitespace(s.last()) {
        strip_trailing(s.drop_last())
    } else {
        s
    }
}

/// `s` without leading and trailing whitespace.
pub open spec fn trimmed(s: Seq<char>) -> Seq<char> {
    strip_trailing(strip_leading(s))
}

/// `needle` occurs as a contiguous run of characters in `hay`.
pub open spec fn has_substring(hay: Seq<char>, needle: Seq<char>) -> bool {
    exists|i: int|
        0 <= i && i + needle.len() <= hay.len() && #[trigger] hay.subrange(i, i + needle.len())
            == needle
}

/// The Unicode lower-case mapping of a string, as `str::to_lowercase` computes it.
pub uninterp spec fn lowercase(s: Seq<char>) -> Seq<char>;

/// Every character is ASCII.
pub open spec fn is_ascii_text(s: Seq<char>) -> bool {
    forall|i: int| 0 <= i < s.len() ==> (#[trigger] s[i] as u32) < 0x80
}

/// An ASCII upper-case letter made lower-case; any other character as it is.
pub open spec fn ascii_lower_char(c: char) -> char {
    if 0x41 <= (c as u32) && (c as u32) <= 0x5A {
        ((c as u32) + 0x20) as char
    } else {
        c
    }
}

/// Each ASCII upper-case letter of `s` made lower-case.
pub open spec fn ascii_lower(s: Seq<char>) -> Seq<char> {
    s.map_values(|c: char| ascii_lower_char(c))
}

/// The lower-case form of `s`: ASCII text letter by letter, other text by
/// the Unicode mapping.
pub open spec fn folded(s: Seq<char>) -> Seq<char> {
    if is_ascii_text(s) {
        ascii_lower(s)
    } else {
        lowercase(s)
    }
}

/// The decimal digit character for `d`.
pub open spec fn digit_char(d: nat) -> char {
    seq!['0', '1', '2', '3', '4', '5', '6', '7', '8', '9'][d as int]
}

/// The decimal rendering of `n`, without sign or leading zeros.
pub open spec fn decimal(n: nat) -> Seq<char>
    decreases n,
{
    if n < 10 {
        seq![digit_char(n)]
    } else {
        decimal(n / 10).push(digit_char(n % 10))
    }
}

/// Lexicographic comparison by code point: -1, 0 or 1. For UTF-8 strings this
/// is the order `str`'s `Ord` gives, since UTF-8 preserves code-point order.
pub open spec fn lex_order(a: Seq<char>, b: Seq<char>) -> int
    decreases a.len(),
{
    if a.len() == 0 {
        if b.len() == 0 {
            0
        } else {
            -1
        }
    } else if b.len() == 0 {
        1
    } else if a[0] < b[0] {
        -1
    } else if a[0] > b[0] {
        1
    } else {
        lex_order(a.drop_first(), b.drop_first())
    }
}

/// `c` occurs in `s`.
pub open spec fn has_char(s: Seq<char>, c: char) -> bool {
    exists|i: int| 0 <= i < s.len() && s[i] == c
}

// ---------------------------------------------------------------------------
// Lemmas on the lexicographic order
// ---------------------------------------------------------------------------

pub proof fn lemma_lex_order_range(a: Seq<char>, b: Seq<char>)
    ensures
        -1 <= lex_order(a, b) <= 1,
    decreases a.len(),
{
    if a.len() > 0 && b.len() > 0 && a[0] == b[0] {
        lemma_lex_order_range(a.drop_first(), b.drop_first());
    }
}

pub proof fn lemma_lex_order_antisymmetric(a: Seq<char>, b: Seq<char>)
    ensures
        lex_order(a, b) == -lex_order(b, a),
    decreases a.len(),
{
    if a.len() > 0 && b.len() > 0 && a[0] == b[0] {
        lemma_lex_order_antisymmetric(a.drop_first(), b.drop_first());
    }
}

pub proof fn lemma_lex_order_zero(a: Seq<char>, b: Seq<char>)
    ensures
        lex_order(a, b) == 0 <==> a == b,
    decreases a.len(),
{
    if a.len() > 0 && b.len() > 0 {
        if a[0] == b[0] {
            lemma_lex_order_zero(a.drop_first(), b.drop_first());
            assert(a[0] == b[0]);
            if a.drop_first() == b.drop_first() {
                assert(a =~= seq![a[0]] + a.drop_first());
                assert(b =~= seq![b[0]] + b.drop_first());
            }
            if a == b {
                assert(a.drop_first() =~= b.drop_first());
            }
        }
    } else if a.len() == 0 && b.len() == 0 {
        assert(a =~= b);
    }
}

pub proof fn lemma_lex_order_transitive(a: Seq<char>, b: Seq<char>, c: Seq<char>)
    requires
        lex_order(a, b) <= 0,
        lex_order(b, c) <= 0,
    ensures
        lex_order(a, c) <= 0,
        lex_order(a, b) < 0 || lex_order(b, c) < 0 ==> lex_order(a, c) < 0,
    decreases a.len(),
{
    if a.len() > 0 && b.len() > 0 && c.len() > 0 {
        if a[0] == b[0] && b[0] == c[0] {
            lemma_lex_order_transitive(a.drop_first(), b.drop_first(), c.drop_first());
        }
    }
}

// ---------------------------------------------------------------------------
// Executable operations
// ---------------------------------------------------------------------------

/// The characters of `s`, in order.
pub fn chars_of(s: &str) -> (v: Vec<char>)
    ensures
        v@ == s@,
{
    let mut v: Vec<char> = Vec::new();
    for c in it: s.chars()
        invariant
            v@ == it.seq().take(it.index() as int),
            it.seq() == s@,
    {
        v.push(c);
    }
    v
}

/// Lexicographic comparison of two character sequences: -1, 0 or 1.
pub fn compare_chars(a: &[char], b: &[char]) -> (r: i8)
    ensures
        r == lex_order(a@, b@),
{
    let mut i: usize = 0;
    assert(a@.skip(0) =~= a@);
    assert(b@.skip(0) =~= b@);
    while i < a.len() && i < b.len()
        invariant
            i <= a.len(),
            i <= b.len(),
            lex_order(a@, b@) == lex_order(a@.skip(i as int), b@.skip(i as int)),
        decreases a.len() - i,
    {
        let x = a[i];
        let y = b[i];
        if x < y {
            return -1;
        } else if x > y {
            return 1;
        }
        assert(a@.skip(i as int).drop_first() =~= a@.skip(i + 1));
        assert(b@.skip(i as int).drop_first() =~= b@.skip(i + 1));
        i = i + 1;
    }
    if i < a.len() {
        1
    } else if i < b.len() {
        -1
    } else {
        0
    }
}

/// Whether `c` occurs in `s`.
pub fn contains_char(s: &[char], c: char) -> (r: bool)
    ensures
        r == has_char(s@, c),
{
    let mut i: usize = 0;
    while i < s.len()
        invariant
            i <= s.len(),
            forall|j: int| 0 <= j < i ==> s@[j] != c,
        decreases s.len() - i,
    {
        if s[i] == c {
            return true;
        }
        i = i + 1;
    }
    false
}

/// `str::to_lowercase`: the Unicode lower-case mapping of `s`. The empty
/// string stays empty, and on ASCII text it lower-cases exactly the ASCII
/// letters A to Z, as std documents; beyond that the mapping is named,
/// not spelled out.
#[verifier::external_body]
pub(crate) fn to_lowercase(s: &str) -> (r: String)
    ensures
        r@ == lowercase(s@),
        s@.len() == 0 ==> r@.len() == 0,
        is_ascii_text(s@) ==> r@ == ascii_lower(s@),
        r@ == folded(s@),
{
    s.to_lowercase()
}

fn is_whitespace_char(c: char) -> (r: bool)
    ensures
        r == is_unicode_whitespace(c),
{
    let n = c as u32;
    (0x09 <= n && n <= 0x0D) || n == 0x20 || n == 0x85 || n == 0xA0 || n == 0x1680 || (0x2000 <= n && n
        <= 0x200A) || n == 0x2028 || n == 0x2029 || n == 0x202F || n == 0x205F || n == 0x3000
}

proof fn lemma_strip_leading_at(s: Seq<char>, a: int)
    requires
        0 <= a <= s.len(),
        forall|j: int| 0 <= j < a ==> is_unicode_whitespace(#[trigger] s[j]),
        a == s.len() || !is_unicode_whitespace(s[a]),
    ensures
        strip_leading(s) == s.subrange(a, s.len() as int),
    decreases a,
{
    if a == 0 {
        assert(s.subrange(0, s.len() as int) =~= s);
    } else {
        let t = s.drop_first();
        assert forall|j: int| 0 <= j < a - 1 implies is_unicode_whitespace(#[trigger] t[j]) by {
            assert(t[j] == s[j + 1]);
        }
        lemma_strip_leading_at(t, a - 1);
        assert(t.subrange(a - 1, t.len() as int) =~= s.subrange(a, s.len() as int));
    }
}

proof fn lemma_strip_trailing_at(t: Seq<char>, b: int)
    requires
        0 <= b <= t.len(),
        forall|j: int| b <= j < t.len() ==> is_unicode_whitespace(#[trigger] t[j]),
        b == 0 || !is_unicode_whitespace(t[b - 1]),
    ensures
        strip_trailing(t) == t.subrange(0, b),
    decreases t.len() - b,
{
    if b == t.len() {
        assert(t.subrange(0, b) =~= t);
    } else {
        let u = t.drop_last();
        lemma_strip_trailing_at(u, b);
        assert(u.subrange(0, b) =~= t.subrange(0, b));
    }
}

/// `s` without leading and trailing Unicode whitespace, as `str::trim` gives it.
pub(crate) fn trim(s: &str) -> (r: &str)
    ensures
        r@ == trimmed(s@),
{
    let chars = chars_of(s);
    let n = chars.len();
    let mut a: usize = 0;
    while a < n && is_whitespace_char(chars[a])
        invariant
            a <= n,
            n == s@.len(),
            chars@ == s@,
            forall|j: int| 0 <= j < a ==> is_unicode_whitespace(#[trigger] s@[j]),
        decreases n - a,
    {
        a = a + 1;
    }
    let mut b: usize = n;
    while b > a && is_whitespace_char(chars[b - 1])
        invariant
            a <= b <= n,
            n == s@.len(),
            chars@ == s@,
            forall|j: int| b <= j < n ==> is_unicode_whitespace(#[trigger] s@[j]),
        decreases b,
    {
        b = b - 1;
    }
    proof {
        lemma_strip_leading_at(s@, a as int);
        let t = s@.subrange(a as int, n as int);
        assert forall|j: int| b - a <= j < t.len() implies is_unicode_whitespace(#[trigger] t[j]) by {
            assert(t[j] == s@[j + a]);
        }
        if b > a {
            assert(t[b - a - 1] == s@[b - 1]);
        }
        lemma_strip_trailing_at(t, b - a);
        assert(t.subrange(0, b - a) =~= s@.subrange(a as int, b as int));
    }
    s.substring_char(a, b)
}

/// Whether `needle` occurs in `hay`, as `str::contains` with a `&str`
/// pattern decides it.
pub(crate) fn str_contains(hay: &str, needle: &str) -> (r: bool)
    ensures
        r == has_substring(hay@, needle@),
{
    let h = chars_of(hay);
    let nd = chars_of(needle);
    let hn = h.len();
    let nn = nd.len();
    if nn > hn {
        return false;
    }
    let mut i: usize = 0;
    while i <= hn - nn
        invariant
            h@ == hay@,
            nd@ == needle@,
            hn == hay@.len(),
            nn == needle@.len(),
            nn <= hn,
            i <= hn - nn + 1,
            forall|k: int| 0 <= k < i ==> #[trigger] hay@.subrange(k, k + nn) != needle@,
        decreases hn - nn + 1 - i,
    {
        let mut j: usize = 0;
        while j < nn && h[i + j] == nd[j]
            invariant
                h@ == hay@,
                nd@ == needle@,
                hn == hay@.len(),
                nn == needle@.len(),
                i + nn <= hn,
                j <= nn,
                forall|q: int| 0 <= q < j ==> hay@[i + q] == needle@[q],
            decreases nn - j,
        {
            j = j + 1;
        }
        if j == nn {
            assert(hay@.subrange(i as int, i + nn) =~= needle@);
            return true;
        }
        assert(hay@.subrange(i as int, i + nn)[j as int] != needle@[j as int]);
        i = i + 1;
    }
    false
}

/// The decimal rendering of `n`, as `u64::to_string` gives it.
pub(crate) fn u64_to_string(n: u64) -> (r: String)
    ensures
        r@ == decimal(n as nat),
{
    let mut m: u64 = n;
    let mut acc: Vec<char> = Vec::new();
    while m >= 10
        invariant
            decimal(n as nat) == decimal(m as nat) + acc@,
            forall|j: int| 0 <= j < acc@.len() ==> exists|e: nat| e < 16 && #[trigger] acc@[j] == hex_char(e),
        decreases m,
    {
        let d: u128 = (m % 10) as u128;
        let c = hex_digit(d);
        let ghost before = acc@;
        acc.insert(0, c);
        assert forall|j: int| 0 <= j < acc@.len() implies exists|e: nat| e < 16 && #[trigger] acc@[j] == hex_char(e) by {
            if j == 0 {
                assert(acc@[0] == hex_char(d as nat));
            } else {
                assert(acc@[j] == before[j - 1]);
            }
        }
        assert(decimal(m as nat) == decimal((m / 10) as nat).push(c));
        assert(decimal((m / 10) as nat).push(c) + before =~= decimal((m / 10) as nat) + acc@);
        m = m / 10;
    }
    let c = hex_digit(m as u128);
    let ghost before = acc@;
    acc.insert(0, c);
    assert(acc@ =~= seq![c] + before);
    assert forall|j: int| 0 <= j < acc@.len() implies exists|e: nat| e < 16 && #[trigger] acc@[j] == hex_char(e) by {
        if j == 0 {
            assert(acc@[0] == hex_char(m as nat));
        } else {
            assert(acc@[j] == before[j - 1]);
        }
    }
    let mut out = String::new();
    let mut i: usize = 0;
    while i < acc.len()
        invariant
            i <= acc@.len(),
            acc@ == decimal(n as nat),
            forall|j: int| 0 <= j < acc@.len() ==> exists|e: nat| e < 16 && #[trigger] acc@[j] == hex_char(e),
            out@ == acc@.take(i as int),
        decreases acc@.len() - i,
    {
        let c = acc[i];
        assert(exists|d: nat| d < 16 && acc@[i as int] == hex_char(d));
        out.append(char_piece(c));
        assert(out@ =~= acc@.take(i + 1));
        i = i + 1;
    }
    assert(acc@.take(acc@.len() as int) =~= acc@);
    out
}

// ---------------------------------------------------------------------------
// Hexadecimal identifiers
// ---------------------------------------------------------------------------

/// The lower-case hexadecimal digit for `d`.
pub open spec fn hex_char(d: nat) -> char {
    seq!['0', '1', '2', '3', '4', '5', '6', '7', '8', '9', 'a', 'b', 'c', 'd', 'e', 'f'][d as int]
}

/// The last `k` hexadecimal digits of `n`, most significant first.
pub open spec fn hex_digits(n: nat, k: nat) -> Seq<char>
    decreases k,
{
    if k == 0 {
        seq![]
    } else {
        hex_digits(n / 16, (k - 1) as nat).push(hex_char(n % 16))
    }
}

/// Hyphen positions of an id: before the 9th, 13th, 17th and 21st digit.
pub open spec fn hyphen_before(i: int) -> bool {
    i == 8 || i == 12 || i == 16 || i == 20
}

/// The first `i` digits of `h`, with a hyphen before each hyphen position.
pub open spec fn grouped(h: Seq<char>, i: nat) -> Seq<char>
    decreases i,
{
    if i == 0 {
        seq![]
    } else {
        grouped(h, (i - 1) as nat) + (if hyphen_before(i - 1) {
            seq!['-']
        } else {
            seq![]
        }) + seq![h[i - 1]]
    }
}

/// The hyphenated lower-case rendering of a 128-bit id: 32 hexadecimal
/// digits in groups of 8, 4, 4, 4 and 12.
pub open spec fn id_text(id: u128) -> Seq<char> {
    grouped(hex_digits(id as nat, 32), 32)
}

proof fn lemma_hex_digits_len(n: nat, k: nat)
    ensures
        hex_digits(n, k).len() == k,
    decreases k,
{
    if k > 0 {
        lemma_hex_digits_len(n / 16, (k - 1) as nat);
    }
}

fn hex_digit(d: u128) -> (c: char)
    requires
        d < 16,
    ensures
        c == hex_char(d as nat),
{
    let t = ['0', '1', '2', '3', '4', '5', '6', '7', '8', '9', 'a', 'b', 'c', 'd', 'e', 'f'];
    let i = d as usize;
    assert(t@ == seq!['0', '1', '2', '3', '4', '5', '6', '7', '8', '9', 'a', 'b', 'c', 'd', 'e', 'f']);
    t[i]
}

/// A one-character string for a hexadecimal digit or a hyphen.
fn char_piece(c: char) -> (r: &'static str)
    requires
        c == '-' || exists|d: nat| d < 16 && c == hex_char(d),
    ensures
        r@ == seq![c],
{
    proof {
        reveal_strlit("0");
        reveal_strlit("1");
        reveal_strlit("2");
        reveal_strlit("3");
        reveal_strlit("4");
        reveal_strlit("5");
        reveal_strlit("6");
        reveal_strlit("7");
        reveal_strlit("8");
        reveal_strlit("9");
        reveal_strlit("a");
        reveal_strlit("b");
        reveal_strlit("c");
        reveal_strlit("d");
        reveal_strlit("e");
        reveal_strlit("f");
        reveal_strlit("-");
    }
    match c {
        '0' => "0",
        '1' => "1",
        '2' => "2",
        '3' => "3",
        '4' => "4",
        '5' => "5",
        '6' => "6",
        '7' => "7",
        '8' => "8",
        '9' => "9",
        'a' => "a",
        'b' => "b",
        'c' => "c",
        'd' => "d",
        'e' => "e",
        'f' => "f",
        _ => "-",
    }
}

/// The hyphenated lower-case rendering of a 128-bit id.
pub fn id_string(id: u128) -> (r: String)
    ensures
        r@ == id_text(id),
{
    let mut n: u128 = id;
    let mut k: usize = 32;
    let mut acc: Vec<char> = Vec::new();
    while k > 0
        invariant
            k <= 32,
            hex_digits(id as nat, 32) == hex_digits(n as nat, k as nat) + acc@,
            forall|j: int| 0 <= j < acc@.len() ==> exists|d: nat| d < 16 && #[trigger] acc@[j] == hex_char(d),
        decreases k,
    {
        let c = hex_digit(n % 16);
        let ghost before = acc@;
        acc.insert(0, c);
        assert(hex_digits(n as nat, k as nat) == hex_digits((n / 16) as nat, (k - 1) as nat).push(c));
        assert(hex_digits((n / 16) as nat, (k - 1) as nat).push(c) + before =~= hex_digits(
            (n / 16) as nat,
            (k - 1) as nat,
        ) + acc@);
        assert forall|j: int| 0 <= j < acc@.len() implies exists|d: nat| d < 16 && #[trigger] acc@[j] == hex_char(d) by {
            if j == 0 {
                assert(acc@[0] == hex_char((n % 16) as nat));
            } else {
                assert(acc@[j] == before[j - 1]);
            }
        }
        n = n / 16;
        k = k - 1;
    }
    assert(hex_digits(n as nat, 0) + acc@ =~= acc@);
    proof {
        lemma_hex_digits_len(id as nat, 32);
    }
    let mut out = String::new();
    let mut i: usize = 0;
    while i < 32
        invariant
            i <= 32,
            acc@ == hex_digits(id as nat, 32),
            acc@.len() == 32,
            forall|j: int| 0 <= j < acc@.len() ==> exists|d: nat| d < 16 && #[trigger] acc@[j] == hex_char(d),
            out@ == grouped(acc@, i as nat),
        decreases 32 - i,
    {
        let ghost before = out@;
        if i == 8 || i == 12 || i == 16 || i == 20 {
            out.append(char_piece('-'));
        }
        let c = acc[i];
        assert(exists|d: nat| d < 16 && acc@[i as int] == hex_char(d));
        out.append(char_piece(c));
        assert(out@ =~= grouped(acc@, (i + 1) as nat));
        i = i + 1;
    }
    out
}

// ---------------------------------------------------------------------------
// Lines
// ---------------------------------------------------------------------------

/// The position of the first line feed in `s`, or its length when none.
pub open spec fn first_newline(s: Seq<char>) -> nat
    decreases s.len(),
{
    if s.len() == 0 {
        0
    } else if s[0] == '\n' {
        0
    } else {
        1 + first_newline(s.drop_first())
    }
}

/// A line without the carriage return of a CR LF ending.
pub open spec fn strip_cr(l: Seq<char>) -> Seq<char> {
    if l.len() > 0 && l.last() == '\r' {
        l.drop_last()
    } else {
        l
    }
}

/// The first line feed lies within `s`, and no line feed comes before it.
pub proof fn lemma_first_newline_bound(s: Seq<char>)
    ensures
        first_newline(s) <= s.len(),
        first_newline(s) < s.len() ==> s[first_newline(s) as int] == '\n',
        forall|j: int| 0 <= j < first_newline(s) ==> s[j] != '\n',
    decreases s.len(),
{
    if s.len() > 0 && s[0] != '\n' {
        lemma_first_newline_bound(s.drop_first());
        assert forall|j: int| 0 <= j < first_newline(s) implies s[j] != '\n' by {
            if j > 0 {
                assert(s[j] == s.drop_first()[j - 1]);
            }
        }
    }
}

proof fn lemma_first_newline_at(s: Seq<char>, e: int)
    requires
        0 <= e <= s.len(),
        forall|j: int| 0 <= j < e ==> s[j] != '\n',
        e < s.len() ==> s[e] == '\n',
    ensures
        first_newline(s) == e,
    decreases e,
{
    if e > 0 {
        lemma_first_newline_at(s.drop_first(), e - 1);
    }
}

/// The lines of `s` as `str::lines` yields them: split at each line feed,
/// each without a carriage return just before its line feed (a carriage
/// return ending the text stays), and no empty line after a final line feed.
pub open spec fn text_lines(s: Seq<char>) -> Seq<Seq<char>>
    decreases s.len(),
{
    if s.len() == 0 {
        seq![]
    } else {
        let e = first_newline(s);
        proof {
            lemma_first_newline_bound(s);
        }
        if e >= s.len() {
            seq![s]
        } else {
            seq![strip_cr(s.subrange(0, e as int))] + text_lines(s.subrange((e + 1) as int, s.len() as int))
        }
    }
}

/// The character views of a sequence of strings.
pub open spec fn views_of(v: Seq<String>) -> Seq<Seq<char>> {
    v.map_values(|x: String| x@)
}

/// The lines of `s`, as `str::lines` splits them.
pub fn lines_of(s: &str) -> (r: Vec<String>)
    ensures
        views_of(r@) == text_lines(s@),
{
    let chars = chars_of(s);
    let n = chars.len();
    let mut out: Vec<String> = Vec::new();
    let mut start: usize = 0;
    let mut done = false;
    assert(s@.subrange(0, n as int) =~= s@);
    assert(views_of(out@) + text_lines(s@) =~= text_lines(s@));
    while !done && start < n
        invariant
            chars@ == s@,
            n == s@.len(),
            start <= n,
            done ==> views_of(out@) == text_lines(s@),
            !done ==> text_lines(s@) == views_of(out@) + text_lines(s@.subrange(start as int, n as int)),
        decreases n - start + (if done { 0int } else { 1int }),
    {
        let ghost rest = s@.subrange(start as int, n as int);
        let mut e: usize = start;
        while e < n && chars[e] != '\n'
            invariant
                start <= e <= n,
                chars@ == s@,
                n == s@.len(),
                forall|j: int| start <= j < e ==> s@[j] != '\n',
            decreases n - e,
        {
            e = e + 1;
        }
        let end = if e < n && e > start && chars[e - 1] == '\r' {
            e - 1
        } else {
            e
        };
        let line = s.substring_char(start, end).to_owned();
        let ghost before = out@;
        out.push(line);
        proof {
            lemma_first_newline_at(rest, e - start);
            assert(rest.subrange(0, e - start) =~= s@.subrange(start as int, e as int));
            if e < n {
                assert(line@ =~= strip_cr(rest.subrange(0, e - start)));
            } else {
                assert(line@ =~= rest);
            }
            assert(views_of(out@) =~= views_of(before).push(line@));
        }
        if e >= n {
            done = true;
            assert(text_lines(rest) == seq![line@]);
            assert(views_of(out@) =~= views_of(before) + text_lines(rest));
        } else {
            assert(rest.subrange(e - start + 1, rest.len() as int) =~= s@.subrange(e + 1, n as int));
            assert(views_of(out@) + text_lines(s@.subrange(e + 1, n as int)) =~= views_of(before) + text_lines(
                rest,
            ));
            start = e + 1;
        }
    }
    if !done {
        assert(s@.subrange(start as int, n as int) =~= Seq::<char>::empty());
        assert(views_of(out@) + Seq::<Seq<char>>::empty() =~= views_of(out@));
    }
    out
}

} // verus!
