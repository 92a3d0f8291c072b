//! Character and string primitives shared by the lexer, the parser, the code
//! generator and the REPL helpers, with their specifications over `Seq<char>`.
use vstd::prelude::*;

verus! {

// ── White space ─────────────────────────────────────────────────────────

/// The Unicode White_Space property, which `char::is_whitespace` tests:
/// tab through carriage return, space, next line, no-break space, ogham
/// space mark, the spaces from en quad to hair space, line and paragraph
/// separators, narrow no-break space, medium mathematical space and
/// ideographic space.
pub open spec fn spec_is_whitespace(c: char) -> bool {
    let u = c as u32;
    ||| 0x09 <= u <= 0x0D
    ||| u == 0x20
    ||| u == 0x85
    ||| u == 0xA0
    ||| u == 0x1680
    ||| 0x2000 <= u <= 0x200A
    ||| u == 0x2028
    ||| u == 0x2029
    ||| u == 0x202F
    ||| u == 0x205F
    ||| u == 0x3000
}

/// Whether `c` is white space (`char::is_whitespace`).
pub(crate) fn char_is_whitespace(c: char) -> (r: bool)
    ensures
        r == spec_is_whitespace(c),
{
    let u = c as u32;
    (0x09 <= u && u <= 0x0D) || u == 0x20 || u == 0x85 || u == 0xA0 || u == 0x1680 || (0x2000 <= u && u <= 0x200A)
        || u == 0x2028 || u == 0x2029 || u == 0x202F || u == 0x205F || u == 0x3000
}

// ── Names for what std's Unicode-table functions return ─────────────────

/// Whether `char::is_alphabetic` holds of `c` (the Unicode Alphabetic property).
pub uninterp spec fn spec_is_alphabetic(c: char) -> bool;

/// Whether `char::is_alphanumeric` holds of `c` (Alphabetic or Numeric).
pub uninterp spec fn spec_is_alphanumeric(c: char) -> bool;

/// What `str::to_uppercase` returns for a string (Unicode upper-case mapping).
pub uninterp spec fn spec_to_uppercase(s: Seq<char>) -> Seq<char>;

/// What `format!("{:?}", s)` renders for a string slice `s`.
pub uninterp spec fn spec_debug_str(s: Seq<char>) -> Seq<char>;

/// What `format!("{:?}", c)` renders for a character `c`.
pub uninterp spec fn spec_debug_char(c: char) -> Seq<char>;

/// Whether `c` is alphabetic (`char::is_alphabetic`): for ASCII exactly the
/// letters, as std fixes it; beyond ASCII, the named Unicode property.
pub open spec fn alphabetic(c: char) -> bool {
    if (c as u32) < 128 {
        'a' <= c <= 'z' || 'A' <= c <= 'Z'
    } else {
        spec_is_alphabetic(c)
    }
}

/// Whether `c` is alphanumeric (`char::is_alphanumeric`): for ASCII exactly
/// the letters and digits, as std fixes it; beyond ASCII, the named property.
pub open spec fn alphanumeric(c: char) -> bool {
    if (c as u32) < 128 {
        'a' <= c <= 'z' || 'A' <= c <= 'Z' || '0' <= c <= '9'
    } else {
        spec_is_alphanumeric(c)
    }
}

// ── Trusted wrappers around std ─────────────────────────────────────────

/// Calls `char::is_alphabetic`; the result is named `spec_is_alphabetic`.
/// For ASCII the contract states it exactly: the letters `a`..=`z` and
/// `A`..=`Z` and nothing else. Non-ASCII characters are left to the name.
#[verifier::external_body]
pub(crate) fn char_is_alphabetic(c: char) -> (r: bool)
    ensures
        r == spec_is_alphabetic(c),
        (c as u32) < 128 ==> (r <==> ('a' <= c <= 'z' || 'A' <= c <= 'Z')),
{
    c.is_alphabetic()
}

/// Calls `char::is_alphanumeric`; the result is named `spec_is_alphanumeric`.
/// The contract also states, as std documents, that every alphabetic
/// character is alphanumeric, and, for ASCII, exactly which are: the letters
/// and the digits `0`..=`9`.
#[verifier::external_body]
pub(crate) fn char_is_alphanumeric(c: char) -> (r: bool)
    ensures
        r == spec_is_alphanumeric(c),
        spec_is_alphabetic(c) ==> r,
        (c as u32) < 128 ==> (r <==> ('a' <= c <= 'z' || 'A' <= c <= 'Z' || '0' <= c <= '9')),
{
    c.is_alphanumeric()
}

/// Calls `str::to_uppercase`; the result is named `spec_to_uppercase` of the input.
#[verifier::external_body]
pub(crate) fn str_to_uppercase(s: &str) -> (r: String)
    ensures
        r@ == spec_to_uppercase(s@),
{
    s.to_uppercase()
}

/// Formats a string slice with `{:?}` (`<str as Debug>::fmt`); the result is
/// named `spec_debug_str` of the input.
#[verifier::external_body]
pub(crate) fn str_debug(s: &str) -> (r: String)
    ensures
        r@ == spec_debug_str(s@),
{
    format!("{:?}", s)
}

/// Formats a character with `{:?}` (`<char as Debug>::fmt`); the result is
/// named `spec_debug_char` of the input.
#[verifier::external_body]
pub(crate) fn char_debug(c: char) -> (r: String)
    ensures
        r@ == spec_debug_char(c),
{
    format!("{:?}", c)
}

/// Calls `String::push`: the character is appended at the end.
#[verifier::external_body]
pub(crate) fn push_char(s: &mut String, c: char)
    ensures
        final(s)@ == old(s)@.push(c),
{
    s.push(c)
}

// ── Verified helpers ────────────────────────────────────────────────────

/// The characters of `s`, in order.
pub fn chars_of(s: &str) -> (r: Vec<char>)
    ensures
        r@ == s@,
{
    broadcast use vstd::string::axiom_spec_iter;
    let mut v: Vec<char> = Vec::new();
    for c in it: s.chars()
        invariant
            it.seq() == s@,
            v@ == it.seq().take(it.index()),
    {
        assert(it.seq().take(it.index() + 1) =~= it.seq().take(it.index()).push(c));
        v.push(c);
    }
    assert(v@ =~= s@);
    v
}

/// Whether two texts hold the same characters.
pub fn str_eq(a: &str, b: &str) -> (r: bool)
    ensures
        r == (a@ == b@),
{
    let x = chars_of(a);
    let y = chars_of(b);
    if x.len() != y.len() {
        return false;
    }
    let mut i: usize = 0;
    while i < x.len()
        invariant
            i <= x.len(),
            x.len() == y.len(),
            x@ == a@,
            y@ == b@,
            forall|j: int| 0 <= j < i ==> x@[j] == y@[j],
        decreases x.len() - i,
    {
        if x[i] != y[i] {
            return false;
        }
        i += 1;
    }
    assert(a@ =~= b@);
    true
}

/// An owned copy of `s`.
pub fn string_of(s: &str) -> (r: String)
    ensures
        r@ == s@,
{
    s.to_owned()
}

/// Concatenation is associative.
pub broadcast proof fn lemma_seq_add_assoc<A>(a: Seq<A>, b: Seq<A>, c: Seq<A>)
    ensures
        #[trigger] ((a + b) + c) == a + (b + c),
{
    assert(((a + b) + c) =~= a + (b + c));
}

/// The empty sequence is a unit of concatenation.
pub broadcast proof fn lemma_seq_add_empty<A>(a: Seq<A>)
    ensures
        #[trigger] (a + Seq::<A>::empty()) == a,
        #[trigger] (Seq::<A>::empty() + a) == a,
{
    assert(a + Seq::<A>::empty() =~= a);
    assert(Seq::<A>::empty() + a =~= a);
}

/// Appends `t` to `s`.
pub fn push_str(s: &mut String, t: &str)
    ensures
        final(s)@ == old(s)@ + t@,
{
    s.append(t);
}

/// An empty string.
pub fn empty_string() -> (r: String)
    ensures
        r@ == Seq::<char>::empty(),
{
    String::new()
}

/// A string holding the characters of `v`.
pub fn string_from_chars(v: &Vec<char>) -> (r: String)
    ensures
        r@ == v@,
{
    let mut r = String::new();
    let mut i: usize = 0;
    while i < v.len()
        invariant
            i <= v.len(),
            r@ == v@.subrange(0, i as int),
        decreases v.len() - i,
    {
        push_char(&mut r, v[i]);
        assert(v@.subrange(0, i + 1) == v@.subrange(0, i as int).push(v@[i as int]));
        i += 1;
    }
    assert(v@.subrange(0, v.len() as int) == v@);
    r
}

/// The characters of `s` in a vector.
pub fn chars_of_string(s: &String) -> (r: Vec<char>)
    ensures
        r@ == s@,
{
    chars_of(s.as_str())
}

/// `c` is an ASCII decimal digit.
pub open spec fn is_digit(c: char) -> bool {
    '0' <= c <= '9'
}

/// `char::is_ascii_digit`: `c` is one of `0`..=`9`.
pub fn char_is_ascii_digit(c: char) -> (r: bool)
    ensures
        r == is_digit(c),
{
    '0' <= c && c <= '9'
}

/// The digit character for `d < 10`.
pub open spec fn digit_char(d: nat) -> char {
    if d == 0 { '0' }
    else if d == 1 { '1' }
    else if d == 2 { '2' }
    else if d == 3 { '3' }
    else if d == 4 { '4' }
    else if d == 5 { '5' }
    else if d == 6 { '6' }
    else if d == 7 { '7' }
    else if d == 8 { '8' }
    else { '9' }
}

/// The value of a digit character.
pub open spec fn digit_value(c: char) -> nat {
    if c == '0' { 0 }
    else if c == '1' { 1 }
    else if c == '2' { 2 }
    else if c == '3' { 3 }
    else if c == '4' { 4 }
    else if c == '5' { 5 }
    else if c == '6' { 6 }
    else if c == '7' { 7 }
    else if c == '8' { 8 }
    else { 9 }
}

/// The decimal rendering of a natural number, without leading zeros.
pub open spec fn nat_text(n: nat) -> Seq<char>
    decreases n,
{
    if n < 10 {
        seq![digit_char(n)]
    } else {
        nat_text(n / 10).push(digit_char(n % 10))
    }
}

/// The decimal rendering of an integer as `Display` writes it.
pub open spec fn int_text(n: int) -> Seq<char> {
    if n < 0 {
        seq!['-'] + nat_text((-n) as nat)
    } else {
        nat_text(n as nat)
    }
}

/// The value of a string of decimal digits (the empty string has value 0).
pub open spec fn digits_value(s: Seq<char>) -> nat
    decreases s.len(),
{
    if s.len() == 0 {
        0
    } else {
        digits_value(s.drop_last()) * 10 + digit_value(s.last())
    }
}

fn digit_char_exec(d: u64) -> (c: char)
    requires
        d < 10,
    ensures
        c == digit_char(d as nat),
{
    if d == 0 { '0' }
    else if d == 1 { '1' }
    else if d == 2 { '2' }
    else if d == 3 { '3' }
    else if d == 4 { '4' }
    else if d == 5 { '5' }
    else if d == 6 { '6' }
    else if d == 7 { '7' }
    else if d == 8 { '8' }
    else { '9' }
}

fn nat_text_exec(n: u64) -> (r: Vec<char>)
    ensures
        r@ == nat_text(n as nat),
    decreases n,
{
    if n < 10 {
        let mut v = Vec::new();
        v.push(digit_char_exec(n));
        v
    } else {
        let mut v = nat_text_exec(n / 10);
        v.push(digit_char_exec(n % 10));
        v
    }
}

/// The decimal text of `n` (`n.to_string()`).
pub fn usize_to_string(n: usize) -> (r: String)
    ensures
        r@ == int_text(n as int),
{
    let v = nat_text_exec(n as u64);
    string_from_chars(&v)
}

/// The decimal text of `n` (`n.to_string()`).
pub fn i64_to_string(n: i64) -> (r: String)
    ensures
        r@ == int_text(n as int),
{
    if n < 0 {
        let m: u64 = if n == i64::MIN { 9223372036854775808u64 } else { (-n) as u64 };
        let v = nat_text_exec(m);
        let mut s = String::new();
        push_char(&mut s, '-');
        let t = string_from_chars(&v);
        push_str(&mut s, t.as_str());
        s
    } else {
        let v = nat_text_exec(n as u64);
        string_from_chars(&v)
    }
}

/// `s` with every `from` replaced by `to`.
pub open spec fn replace_char(s: Seq<char>, from: char, to: char) -> Seq<char> {
    Seq::new(s.len(), |i: int| if s[i] == from { to } else { s[i] })
}

/// Whether `s` contains `c`.
pub fn contains_char(s: &Vec<char>, c: char) -> (r: bool)
    ensures
        r == s@.contains(c),
{
    let mut i: usize = 0;
    while i < s.len()
        invariant
            i <= s.len(),
            forall|j: int| 0 <= j < i ==> s@[j] != c,
        decreases s.len() - i,
    {
        if s[i] == c {
            return true;
        }
        i += 1;
    }
    false
}

/// Joins `parts` with `sep` between neighbours.
pub open spec fn join(parts: Seq<Seq<char>>, sep: Seq<char>) -> Seq<char>
    decreases parts.len(),
{
    if parts.len() == 0 {
        Seq::empty()
    } else if parts.len() == 1 {
        parts[0]
    } else {
        join(parts.drop_last(), sep) + sep + parts.last()
    }
}

/// Concatenates `parts`.
pub open spec fn concat(parts: Seq<Seq<char>>) -> Seq<char>
    decreases parts.len(),
{
    if parts.len() == 0 {
        Seq::empty()
    } else {
        concat(parts.drop_last()) + parts.last()
    }
}

/// Extending a join by one more part.
pub proof fn lemma_join_push(parts: Seq<Seq<char>>, sep: Seq<char>, i: int)
    requires
        0 <= i < parts.len(),
    ensures
        join(parts.take(i + 1), sep) == if i == 0 {
            parts[i]
        } else {
            join(parts.take(i), sep) + sep + parts[i]
        },
{
    assert(parts.take(i + 1).drop_last() == parts.take(i));
}

/// Extending a concatenation by one more part.
pub proof fn lemma_concat_push(parts: Seq<Seq<char>>, i: int)
    requires
        0 <= i < parts.len(),
    ensures
        concat(parts.take(i + 1)) == concat(parts.take(i)) + parts[i],
{
    assert(parts.take(i + 1).drop_last() == parts.take(i));
}

/// The concatenation of two lists of parts is the concatenation of each.
pub proof fn lemma_concat_append(a: Seq<Seq<char>>, b: Seq<Seq<char>>)
    ensures
        concat(a + b) == concat(a) + concat(b),
    decreases b.len(),
{
    if b.len() == 0 {
        assert(a + b =~= a);
        assert(concat(a) + concat(b) =~= concat(a));
    } else {
        lemma_concat_append(a, b.drop_last());
        assert((a + b).drop_last() =~= a + b.drop_last());
        assert((a + b).last() == b.last());
        lemma_seq_add_assoc(concat(a), concat(b.drop_last()), b.last());
    }
}

/// Joins the strings of `v` with `sep` (`v.join(sep)`).
pub fn join_strings(v: &Vec<String>, sep: &str) -> (r: String)
    ensures
        r@ == join(Seq::new(v@.len(), |i: int| v@[i]@), sep@),
{
    let ghost parts = Seq::new(v@.len(), |i: int| v@[i]@);
    let mut r = String::new();
    let mut i: usize = 0;
    while i < v.len()
        invariant
            i <= v.len(),
            parts == Seq::new(v@.len(), |i: int| v@[i]@),
            r@ == join(parts.take(i as int), sep@),
        decreases v.len() - i,
    {
        proof { lemma_join_push(parts, sep@, i as int); }
        if i > 0 {
            push_str(&mut r, sep);
        }
        push_str(&mut r, v[i].as_str());
        i += 1;
    }
    assert(parts.take(v.len() as int) == parts);
    r
}

// ── Trimming, lines, search and replace ─────────────────────────────────

/// `s` without its leading whitespace.
pub open spec fn trim_start(s: Seq<char>) -> Seq<char>
    decreases s.len(),
{
    if s.len() > 0 && spec_is_whitespace(s[0]) {
        trim_start(s.drop_first())
    } else {
        s
    }
}

/// `s` without its trailing whitespace.
pub open spec fn trim_end(s: Seq<char>) -> Seq<char>
    decreases s.len(),
{
    if s.len() > 0 && spec_is_whitespace(s.last()) {
        trim_end(s.drop_last())
    } else {
        s
    }
}

/// `s` without leading and trailing whitespace (`str::trim`).
pub open spec fn trim(s: Seq<char>) -> Seq<char> {
    trim_end(trim_start(s))
}

/// Trimming the start never lengthens a text.
proof fn lemma_trim_start_len(s: Seq<char>)
    ensures
        trim_start(s).len() <= s.len(),
    decreases s.len(),
{
    if s.len() > 0 {
        lemma_trim_start_len(s.drop_first());
    }
}

/// Trimming the end never lengthens a text.
proof fn lemma_trim_end_len(s: Seq<char>)
    ensures
        trim_end(s).len() <= s.len(),
    decreases s.len(),
{
    if s.len() > 0 {
        lemma_trim_end_len(s.drop_last());
    }
}

/// Trimming never lengthens a text.
pub proof fn lemma_trim_len(s: Seq<char>)
    ensures
        trim(s).len() <= s.len(),
{
    lemma_trim_start_len(s);
    lemma_trim_end_len(trim_start(s));
}

/// `s` without trailing `c`s (`str::trim_end_matches` with a character).
pub open spec fn trim_end_char(s: Seq<char>, c: char) -> Seq<char>
    decreases s.len(),
{
    if s.len() > 0 && s.last() == c {
        trim_end_char(s.drop_last(), c)
    } else {
        s
    }
}

/// The index of the first `c` in `s` at or after `i`, or `s.len()`.
pub open spec fn find_char(s: Seq<char>, c: char, i: int) -> int
    decreases s.len() - i,
{
    if i < 0 || i >= s.len() {
        s.len() as int
    } else if s[i] == c {
        i
    } else {
        find_char(s, c, i + 1)
    }
}

/// The lines of `s` (`str::lines`): split at each `\n`, a `\r` just
/// before a `\n` dropped, and no empty line after a final `\n`.
pub open spec fn lines(s: Seq<char>) -> Seq<Seq<char>>
    decreases s.len(),
{
    if s.len() == 0 {
        Seq::empty()
    } else {
        let k = find_char(s, '\n', 0);
        if k < 0 || k >= s.len() {
            seq![s]
        } else {
            let line = s.take(k);
            let line = if line.len() > 0 && line.last() == '\r' { line.drop_last() } else { line };
            seq![line] + lines(s.skip(k + 1))
        }
    }
}

/// `s` begins with `p`.
pub open spec fn starts_with(s: Seq<char>, p: Seq<char>) -> bool {
    p.len() <= s.len() && s.take(p.len() as int) == p
}

/// `s` holds `p` somewhere.
pub open spec fn contains_seq(s: Seq<char>, p: Seq<char>) -> bool {
    exists|i: int| 0 <= i <= s.len() - p.len() && #[trigger] s.subrange(i, i + p.len()) == p
}

/// `s` with each occurrence of `p` replaced by `r`, from the left and without
/// overlaps (`str::replace`), for a non-empty `p`.
pub open spec fn replace_all(s: Seq<char>, p: Seq<char>, r: Seq<char>) -> Seq<char>
    decreases s.len(),
{
    if p.len() == 0 || s.len() < p.len() {
        s
    } else if starts_with(s, p) {
        r + replace_all(s.skip(p.len() as int), p, r)
    } else {
        seq![s[0]] + replace_all(s.skip(1), p, r)
    }
}

/// Where the replacement's first character does not occur, the start of
/// `replace_all` is the start of the text itself.
proof fn lemma_replace_all_prefix(t: Seq<char>, p: Seq<char>, r: Seq<char>, m: int)
    requires
        p.len() > 0,
        r.len() > 0,
        0 <= m <= replace_all(t, p, r).len(),
        forall|j: int| 0 <= j < m ==> replace_all(t, p, r)[j] != r[0],
    ensures
        m <= t.len(),
        replace_all(t, p, r).take(m) == t.take(m),
    decreases t.len(),
{
    let o = replace_all(t, p, r);
    if t.len() < p.len() {
    } else if starts_with(t, p) {
        if m > 0 {
            assert(o[0] == r[0]);
        }
        assert(o.take(m) =~= t.take(m));
    } else if m > 0 {
        let o2 = replace_all(t.skip(1), p, r);
        assert forall|j: int| 0 <= j < m - 1 implies o2[j] != r[0] by {
            assert(o2[j] == o[j + 1]);
        }
        lemma_replace_all_prefix(t.skip(1), p, r, m - 1);
        assert(o.take(m) =~= seq![t[0]] + o2.take(m - 1));
        assert(t.take(m) =~= seq![t[0]] + t.skip(1).take(m - 1));
    } else {
        assert(o.take(m) =~= t.take(m));
    }
}

/// Replacing `p` by a text that begins and ends with characters that `p`
/// does not hold, and is no longer than `p`, leaves no `p`.
pub proof fn lemma_replace_all_removes(s: Seq<char>, p: Seq<char>, r: Seq<char>)
    requires
        p.len() > 0,
        0 < r.len() <= p.len(),
        !p.contains(r[0]),
        !p.contains(r.last()),
    ensures
        !contains_seq(replace_all(s, p, r), p),
    decreases s.len(),
{
    let o = replace_all(s, p, r);
    let n = p.len() as int;
    if s.len() < p.len() {
    } else if starts_with(s, p) {
        lemma_replace_all_removes(s.skip(n), p, r);
        let o2 = replace_all(s.skip(n), p, r);
        assert(o == r + o2);
        assert forall|i: int| 0 <= i <= o.len() - n implies #[trigger] o.subrange(i, i + n) != p by {
            if i >= r.len() {
                assert(o.subrange(i, i + n) =~= o2.subrange(i - r.len(), i - r.len() + n));
            } else {
                let k = r.len() - 1 - i;
                assert(o.subrange(i, i + n)[k] == r.last());
                if o.subrange(i, i + n) == p {
                    assert(p[k] == r.last());
                }
            }
        }
    } else {
        lemma_replace_all_removes(s.skip(1), p, r);
        let o2 = replace_all(s.skip(1), p, r);
        assert(o == seq![s[0]] + o2);
        assert forall|i: int| 0 <= i <= o.len() - n implies #[trigger] o.subrange(i, i + n) != p by {
            if i >= 1 {
                assert(o.subrange(i, i + n) =~= o2.subrange(i - 1, i - 1 + n));
            } else if o.subrange(0, n) == p {
                assert forall|j: int| 0 <= j < n - 1 implies o2[j] != r[0] by {
                    assert(o2[j] == o.subrange(0, n)[j + 1]);
                    if o2[j] == r[0] {
                        assert(p[j + 1] == r[0]);
                    }
                }
                lemma_replace_all_prefix(s.skip(1), p, r, n - 1);
                assert forall|j: int| 0 <= j < n implies s.take(n)[j] == p[j] by {
                    if j > 0 {
                        assert(o2.take(n - 1)[j - 1] == s.skip(1).take(n - 1)[j - 1]);
                        assert(o.subrange(0, n)[j] == o2[j - 1]);
                    } else {
                        assert(o.subrange(0, n)[0] == s[0]);
                    }
                }
                assert(s.take(n) =~= p);
            }
        }
    }
}

/// The trimmed text is a piece of the text.
pub proof fn lemma_trim_piece(x: Seq<char>) -> (ab: (int, int))
    ensures
        0 <= ab.0 <= ab.1 <= x.len(),
        trim(x) == x.subrange(ab.0, ab.1),
{
    let a = lemma_trim_start_piece(x);
    let y = x.skip(a);
    let b = lemma_trim_end_piece(y);
    assert(y.take(b) =~= x.subrange(a, a + b));
    (a, a + b)
}

proof fn lemma_trim_start_piece(x: Seq<char>) -> (a: int)
    ensures
        0 <= a <= x.len(),
        trim_start(x) == x.skip(a),
    decreases x.len(),
{
    if x.len() > 0 && spec_is_whitespace(x[0]) {
        let a = lemma_trim_start_piece(x.drop_first());
        assert(x.drop_first().skip(a) =~= x.skip(a + 1));
        a + 1
    } else {
        assert(x.skip(0) =~= x);
        0
    }
}

proof fn lemma_trim_end_piece(x: Seq<char>) -> (b: int)
    ensures
        0 <= b <= x.len(),
        trim_end(x) == x.take(b),
    decreases x.len(),
{
    if x.len() > 0 && spec_is_whitespace(x.last()) {
        let b = lemma_trim_end_piece(x.drop_last());
        assert(x.drop_last().take(b) =~= x.take(b));
        b
    } else {
        assert(x.take(x.len() as int) =~= x);
        x.len() as int
    }
}

/// A piece of a text without `p` holds no `p`.
pub proof fn lemma_piece_lacks(x: Seq<char>, a: int, b: int, p: Seq<char>)
    requires
        0 <= a <= b <= x.len(),
        !contains_seq(x, p),
    ensures
        !contains_seq(x.subrange(a, b), p),
{
    let y = x.subrange(a, b);
    assert forall|i: int| 0 <= i <= y.len() - p.len() implies #[trigger] y.subrange(i, i + p.len()) != p by {
        assert(y.subrange(i, i + p.len()) =~= x.subrange(a + i, a + i + p.len()));
    }
}

/// The first `n` characters of `s` (all of them if it is shorter).
pub(crate) fn take_chars(s: &Vec<char>, from: usize, to: usize) -> (r: String)
    requires
        from <= to <= s.len(),
    ensures
        r@ == s@.subrange(from as int, to as int),
{
    let mut v: Vec<char> = Vec::new();
    let mut i = from;
    while i < to
        invariant
            from <= i <= to <= s.len(),
            v@ == s@.subrange(from as int, i as int),
        decreases to - i,
    {
        v.push(s[i]);
        assert(s@.subrange(from as int, i + 1) == s@.subrange(from as int, i as int).push(s@[i as int]));
        i += 1;
    }
    string_from_chars(&v)
}

/// `str::trim`: `s` without leading and trailing whitespace.
pub fn trim_str(s: &str) -> (r: String)
    ensures
        r@ == trim(s@),
{
    let cs = chars_of(s);
    let mut a: usize = 0;
    assert(s@.skip(0) == s@);
    while a < cs.len() && char_is_whitespace(cs[a])
        invariant
            a <= cs.len(),
            cs@ == s@,
            trim_start(s@) == trim_start(s@.skip(a as int)),
        decreases cs.len() - a,
    {
        assert(s@.skip(a as int).drop_first() == s@.skip(a + 1));
        a += 1;
    }
    assert(trim_start(s@) == s@.skip(a as int));
    let mut b: usize = cs.len();
    while b > a && char_is_whitespace(cs[b - 1])
        invariant
            a <= b <= cs.len(),
            cs@ == s@,
            trim(s@) == trim_end(s@.subrange(a as int, b as int)),
        decreases b,
    {
        assert(s@.subrange(a as int, b as int).drop_last() == s@.subrange(a as int, b - 1));
        b -= 1;
    }
    assert(s@.skip(a as int) == s@.subrange(a as int, cs.len() as int));
    take_chars(&cs, a, b)
}

/// `str::trim_end_matches` with the character `c`.
pub fn trim_end_char_str(s: &str, c: char) -> (r: String)
    ensures
        r@ == trim_end_char(s@, c),
{
    let cs = chars_of(s);
    let mut b: usize = cs.len();
    assert(s@.take(b as int) == s@);
    while b > 0 && cs[b - 1] == c
        invariant
            b <= cs.len(),
            cs@ == s@,
            trim_end_char(s@, c) == trim_end_char(s@.take(b as int), c),
        decreases b,
    {
        assert(s@.take(b as int).drop_last() == s@.take(b - 1));
        b -= 1;
    }
    take_chars(&cs, 0, b)
}

/// `str::lines`: the lines of `s`.
pub fn lines_of(s: &str) -> (r: Vec<String>)
    ensures
        strs_of(r@) == lines(s@),
{
    let cs = chars_of(s);
    let mut out: Vec<String> = Vec::new();
    let mut start: usize = 0;
    assert(s@.skip(0) == s@);
    assert(strs_of(out@) =~= Seq::<Seq<char>>::empty());
    while start < cs.len()
        invariant
            start <= cs.len(),
            cs@ == s@,
            lines(s@) == strs_of(out@) + lines(s@.skip(start as int)),
        decreases cs.len() - start,
    {
        let ghost rest = s@.skip(start as int);
        let mut k = start;
        while k < cs.len() && cs[k] != '\n'
            invariant
                start <= k <= cs.len(),
                cs@ == s@,
                rest == s@.skip(start as int),
                find_char(rest, '\n', 0) == find_char(rest, '\n', k - start),
            decreases cs.len() - k,
        {
            k += 1;
        }
        let ghost before = out@;
        if k >= cs.len() {
            assert(rest.take((k - start) as int) == rest);
            out.push(take_chars(&cs, start, k));
            assert(strs_of(out@) =~= strs_of(before).push(rest));
            assert(s@.skip(k as int) =~= Seq::<char>::empty());
            assert(lines(s@.skip(k as int)) =~= Seq::<Seq<char>>::empty());
            assert(lines(rest) == seq![rest]);
            assert(strs_of(before) + seq![rest] =~= strs_of(before).push(rest));
            start = k;
        } else {
            let end = if k > start && cs[k - 1] == '\r' { k - 1 } else { k };
            let line = take_chars(&cs, start, end);
            assert(rest.take((k - start) as int) =~= s@.subrange(start as int, k as int));
            assert(find_char(rest, '\n', (k - start) as int) == (k - start) as int);
            if k > start {
                assert(s@.subrange(start as int, k as int).drop_last() =~= s@.subrange(start as int, k - 1));
            }
            assert(rest.skip(k - start + 1) =~= s@.skip(k + 1));
            let ghost lv = line@;
            out.push(line);
            assert(strs_of(out@) =~= strs_of(before).push(lv));
            assert(lines(rest) == seq![lv] + lines(s@.skip(k + 1)));
            assert(strs_of(before) + (seq![lv] + lines(s@.skip(k + 1))) =~= strs_of(before).push(lv) + lines(
                s@.skip(k + 1),
            ));
            start = k + 1;
        }
    }
    assert(s@.skip(start as int) =~= Seq::<char>::empty());
    assert(strs_of(out@) + Seq::<Seq<char>>::empty() =~= strs_of(out@));
    out
}

/// The models of a list of strings.
pub open spec fn strs_of(v: Seq<String>) -> Seq<Seq<char>> {
    Seq::new(v.len(), |i: int| v[i]@)
}

/// Whether `s` begins with `p`.
pub fn starts_with_str(s: &str, p: &str) -> (r: bool)
    ensures
        r == starts_with(s@, p@),
{
    let cs = chars_of(s);
    let ps = chars_of(p);
    if ps.len() > cs.len() {
        return false;
    }
    let mut i: usize = 0;
    while i < ps.len()
        invariant
            ps.len() <= cs.len(),
            cs@ == s@,
            ps@ == p@,
            i <= ps.len(),
            forall|j: int| 0 <= j < i ==> cs@[j] == ps@[j],
        decreases ps.len() - i,
    {
        if cs[i] != ps[i] {
            assert(s@.take(p@.len() as int)[i as int] != p@[i as int]);
            return false;
        }
        i += 1;
    }
    assert(s@.take(p@.len() as int) =~= p@);
    true
}

/// Whether the characters of `s` from `at` begin with `p`.
fn matches_at(s: &Vec<char>, at: usize, p: &Vec<char>) -> (r: bool)
    requires
        at <= s.len(),
    ensures
        r == (p@.len() <= s@.len() - at && s@.subrange(at as int, at + p@.len()) == p@),
{
    if p.len() > s.len() - at {
        return false;
    }
    let mut i: usize = 0;
    while i < p.len()
        invariant
            p.len() <= s.len() - at,
            i <= p.len(),
            forall|j: int| 0 <= j < i ==> s@[at + j] == p@[j],
        decreases p.len() - i,
    {
        if s[at + i] != p[i] {
            assert(s@.subrange(at as int, at + p@.len())[i as int] != p@[i as int]);
            return false;
        }
        i += 1;
    }
    assert(s@.subrange(at as int, at + p@.len()) =~= p@);
    true
}

/// Whether `s` holds `p` (`str::contains`).
pub fn contains_str(s: &str, p: &str) -> (r: bool)
    ensures
        r == contains_seq(s@, p@),
{
    let cs = chars_of(s);
    let ps = chars_of(p);
    if ps.len() > cs.len() {
        return false;
    }
    if ps.len() == 0 {
        assert(s@.subrange(0int, 0int + p@.len()) =~= p@);
        return true;
    }
    let mut i: usize = 0;
    while i <= cs.len() - ps.len()
        invariant
            1 <= ps.len() <= cs.len(),
            cs@ == s@,
            ps@ == p@,
            i <= cs.len() - ps.len() + 1,
            forall|j: int| 0 <= j < i ==> #[trigger] s@.subrange(j, j + p@.len()) != p@,
        decreases cs.len() - ps.len() + 1 - i,
    {
        if matches_at(&cs, i, &ps) {
            assert(s@.subrange(i as int, i + p@.len()) == p@);
            return true;
        }
        i += 1;
    }
    assert forall|j: int| 0 <= j <= s@.len() - p@.len() implies #[trigger] s@.subrange(j, j + p@.len()) != p@ by {
        assert(j < i);
    }
    false
}

/// `str::replace`: `s` with each occurrence of `p` (non-empty) replaced by `r`.
pub fn replace_str(s: &str, p: &str, r: &str) -> (out: String)
    requires
        p@.len() > 0,
    ensures
        out@ == replace_all(s@, p@, r@),
{
    let cs = chars_of(s);
    let ps = chars_of(p);
    let mut out = empty_string();
    let mut i: usize = 0;
    assert(s@.skip(0) == s@);
    while i < cs.len()
        invariant
            i <= cs.len(),
            cs@ == s@,
            ps@ == p@,
            p@.len() > 0,
            replace_all(s@, p@, r@) == out@ + replace_all(s@.skip(i as int), p@, r@),
        decreases cs.len() - i,
    {
        let ghost rest = s@.skip(i as int);
        if matches_at(&cs, i, &ps) {
            proof {
                let n = p@.len() as int;
                assert(rest.take(n) =~= s@.subrange(i as int, i + n));
                assert(rest.skip(n) =~= s@.skip(i + n));
                lemma_seq_add_assoc(out@, r@, replace_all(s@.skip(i + n), p@, r@));
            }
            push_str(&mut out, r);
            i = i + ps.len();
        } else {
            let c = cs[i];
            proof {
                let n = p@.len() as int;
                if rest.len() >= n {
                    assert(rest.take(n) =~= s@.subrange(i as int, i + n));
                }
                assert(rest.skip(1) =~= s@.skip(i + 1));
                lemma_seq_add_assoc(out@, seq![c], replace_all(s@.skip(i + 1), p@, r@));
                if rest.len() < n {
                    lemma_replace_short(s@.skip(i + 1), p@, r@);
                    assert(rest =~= seq![c] + s@.skip(i + 1));
                }
            }
            let ghost before = out@;
            push_char(&mut out, c);
            assert(out@ =~= before + seq![c]);
            i += 1;
        }
    }
    assert(s@.skip(i as int) =~= Seq::<char>::empty());
    assert(out@ + Seq::<char>::empty() =~= out@);
    out
}

/// Text shorter than the pattern is left as it is.
proof fn lemma_replace_short(s: Seq<char>, p: Seq<char>, r: Seq<char>)
    requires
        s.len() < p.len(),
    ensures
        replace_all(s, p, r) == s,
{
}

} // verus!
