//! Text: what the gateway does with characters, stated over sequences of `char`.

use vstd::prelude::*;
use vstd::string::*;
use vstd::utf8::*;

verus! {

/// A character of the Unicode property `White_Space`.
pub open spec fn is_white(c: char) -> bool {
    let u = c as u32;
    ||| 0x09 <= u <= 0x0d
    ||| u == 0x20
    ||| u == 0x85
    ||| u == 0xa0
    ||| u == 0x1680
    ||| 0x2000 <= u <= 0x200a
    ||| u == 0x2028
    ||| u == 0x2029
    ||| u == 0x202f
    ||| u == 0x205f
    ||| u == 0x3000
}

/// `s` without its leading white space.
pub open spec fn trim_start_view(s: Seq<char>) -> Seq<char>
    decreases s.len(),
{
    if s.len() > 0 && is_white(s[0]) {
        trim_start_view(s.subrange(1, s.len() as int))
    } else {
        s
    }
}

/// `s` without its trailing white space.
pub open spec fn trim_end_view(s: Seq<char>) -> Seq<char>
    decreases s.len(),
{
    if s.len() > 0 && is_white(s[s.len() - 1]) {
        trim_end_view(s.subrange(0, s.len() - 1))
    } else {
        s
    }
}

/// `s` without the white space at both ends.
pub open spec fn trim_view(s: Seq<char>) -> Seq<char> {
    trim_end_view(trim_start_view(s))
}

/// `str::trim`: the slice without leading and trailing `White_Space`.
pub assume_specification[ str::trim ](s: &str) -> (r: &str)
    ensures
        r@ == trim_view(s@),
;

/// `str::trim_start`: the slice without leading `White_Space`.
pub assume_specification[ str::trim_start ](s: &str) -> (r: &str)
    ensures
        r@ == trim_start_view(s@),
;

/// `str::trim_end`: the slice without trailing `White_Space`.
pub assume_specification[ str::trim_end ](s: &str) -> (r: &str)
    ensures
        r@ == trim_end_view(s@),
;

/// `String::push`: the character is appended at the end.
pub assume_specification[ std::string::String::push ](s: &mut std::string::String, c: char)
    ensures
        final(s)@ == old(s)@.push(c),
;

/// `==` on `str`: two slices are equal when they hold the same characters.
#[verifier::external_body]
pub(crate) fn same(a: &str, b: &str) -> (r: bool)
    ensures
        r == (a@ == b@),
{
    a == b
}

/// What an optional text stands for.
pub open spec fn opt_str_view(value: Option<&str>) -> Option<Seq<char>> {
    match value {
        Some(v) => Some(v@),
        None => None,
    }
}

/// What an optional text stands for.
pub open spec fn opt_string_view(value: Option<String>) -> Option<Seq<char>> {
    match value {
        Some(v) => Some(v@),
        None => None,
    }
}

/// What tells the words of a small vocabulary apart: the length, and the first, the middle and the
/// last character.
pub open spec fn word_mark(word: Seq<char>) -> (nat, char, char, char) {
    (word.len(), word[0], word[word.len() as int / 2], word.last())
}

/// The empty literal holds no characters.
pub proof fn empty_literal()
    ensures
        ""@ == Seq::<char>::empty(),
{
    reveal_strlit("");
    assert(""@ =~= Seq::<char>::empty());
}

/// The characters of `s`, in order.
pub fn chars_of(s: &str) -> (v: Vec<char>)
    ensures
        v@ == s@,
{
    let mut v: Vec<char> = Vec::new();
    for c in it: s.chars()
        invariant
            it.seq() == s@,
            v@ == s@.subrange(0, it.index() as int),
    {
        v.push(c);
        proof {
            assert(s@.subrange(0, it.index() + 1) =~= s@.subrange(0, it.index() as int).push(c));
        }
    }
    assert(s@.subrange(0, s@.len() as int) =~= s@);
    v
}

/// `a` followed by `b`.
pub fn concat2(a: &str, b: &str) -> (r: String)
    ensures
        r@ == a@ + b@,
{
    let mut r = a.to_string();
    r.append(b);
    r
}

/// The bytes of `s` in UTF-8.
pub fn bytes_of(s: &str) -> (bytes: Vec<u8>)
    ensures
        bytes@ == encode_utf8(s@),
{
    vstd::slice::slice_to_vec(s.as_bytes())
}

/// `s` begins with `prefix`.
pub open spec fn has_prefix(s: Seq<char>, prefix: Seq<char>) -> bool {
    prefix.len() <= s.len() && s.take(prefix.len() as int) == prefix
}

/// What follows `prefix`, where `s` begins with it.
pub fn strip_prefix<'a>(s: &'a str, prefix: &str) -> (rest: Option<&'a str>)
    ensures
        opt_str_view(rest) == if has_prefix(s@, prefix@) {
            Some(s@.skip(prefix@.len() as int))
        } else {
            None
        },
{
    let n: usize = prefix.unicode_len();
    let len: usize = s.unicode_len();
    if n > len {
        return None;
    }
    if same(s.substring_char(0, n), prefix) {
        Some(s.substring_char(n, len))
    } else {
        None
    }
}

/// `s` without the characters `c` at its end.
pub open spec fn trim_end_char_view(s: Seq<char>, c: char) -> Seq<char>
    decreases s.len(),
{
    if s.len() > 0 && s.last() == c {
        trim_end_char_view(s.drop_last(), c)
    } else {
        s
    }
}

/// `s` without the characters `c` at its end.
pub fn trim_end_char(s: &str, c: char) -> (r: &str)
    ensures
        r@ == trim_end_char_view(s@, c),
{
    let chars = chars_of(s);
    let mut n: usize = chars.len();
    assert(s@.take(n as int) =~= s@);
    while n > 0 && chars[n - 1] == c
        invariant
            chars@ == s@,
            n <= chars@.len(),
            trim_end_char_view(s@, c) == trim_end_char_view(s@.take(n as int), c),
        decreases n,
    {
        assert(s@.take(n as int).drop_last() =~= s@.take(n - 1));
        n = n - 1;
    }
    assert(s@.subrange(0, n as int) =~= s@.take(n as int));
    s.substring_char(0, n)
}

/// What has been trimmed has nothing more to trim.
pub proof fn trim_end_char_twice(s: Seq<char>, c: char)
    ensures
        trim_end_char_view(trim_end_char_view(s, c), c) == trim_end_char_view(s, c),
    decreases s.len(),
{
    if s.len() > 0 && s.last() == c {
        trim_end_char_twice(s.drop_last(), c);
    }
}

/// What is trimmed at the end keeps its beginning.
pub proof fn trim_end_char_prefix(s: Seq<char>, c: char)
    ensures
        trim_end_char_view(s, c).len() <= s.len(),
        trim_end_char_view(s, c) == s.take(trim_end_char_view(s, c).len() as int),
    decreases s.len(),
{
    if s.len() > 0 && s.last() == c {
        trim_end_char_prefix(s.drop_last(), c);
        let n = trim_end_char_view(s, c).len() as int;
        assert(s.drop_last().take(n) =~= s.take(n));
    } else {
        assert(s.take(s.len() as int) =~= s);
    }
}

proof fn trim_start_ends(s: Seq<char>)
    ensures
        trim_start_view(s).len() > 0 ==> !is_white(trim_start_view(s)[0]),
    decreases s.len(),
{
    if s.len() > 0 && is_white(s[0]) {
        trim_start_ends(s.subrange(1, s.len() as int));
    }
}

proof fn trim_end_ends(s: Seq<char>)
    ensures
        trim_end_view(s).len() <= s.len(),
        trim_end_view(s) == s.take(trim_end_view(s).len() as int),
        trim_end_view(s).len() > 0 ==> !is_white(trim_end_view(s).last()),
    decreases s.len(),
{
    if s.len() > 0 && is_white(s[s.len() - 1]) {
        let shorter = s.subrange(0, s.len() - 1);
        trim_end_ends(shorter);
        let n = trim_end_view(shorter).len() as int;
        assert(shorter.take(n) =~= s.take(n));
    } else {
        assert(s.take(s.len() as int) =~= s);
    }
}

/// Trimmed text neither begins nor ends with white space.
pub proof fn trim_view_ends(s: Seq<char>)
    ensures
        trim_view(s).len() > 0 ==> !is_white(trim_view(s)[0]) && !is_white(trim_view(s).last()),
{
    trim_start_ends(s);
    trim_end_ends(trim_start_view(s));
}

/// To trim twice is to trim once.
pub proof fn trim_twice(s: Seq<char>)
    ensures
        trim_view(trim_view(s)) == trim_view(s),
{
    trim_view_ends(s);
}

/// `s` ends with `suffix`.
pub open spec fn has_suffix(s: Seq<char>, suffix: Seq<char>) -> bool {
    suffix.len() <= s.len() && s.skip(s.len() - suffix.len()) == suffix
}

/// `s` without `suffix`, where it ends with it.
pub open spec fn without_suffix(s: Seq<char>, suffix: Seq<char>) -> Seq<char> {
    if has_suffix(s, suffix) {
        s.take(s.len() - suffix.len())
    } else {
        s
    }
}

/// `s` without `suffix`, where it ends with it.
pub fn strip_suffix_or_all<'a>(s: &'a str, suffix: &str) -> (rest: &'a str)
    ensures
        rest@ == without_suffix(s@, suffix@),
{
    let n: usize = suffix.unicode_len();
    let len: usize = s.unicode_len();
    if n <= len && same(s.substring_char(len - n, len), suffix) {
        s.substring_char(0, len - n)
    } else {
        s
    }
}

/// A letter of ASCII in lower case; any other character as it is.
pub open spec fn lower_char(c: char) -> char {
    if 'A' <= c <= 'Z' {
        ((c as u32) + 32) as char
    } else {
        c
    }
}

/// `s` with the letters of ASCII in lower case.
pub open spec fn lower_view(s: Seq<char>) -> Seq<char> {
    s.map_values(|c: char| lower_char(c))
}

/// `s` with the letters of ASCII in lower case.
pub fn ascii_lower(s: &str) -> (r: String)
    ensures
        r@ == lower_view(s@),
{
    let chars = chars_of(s);
    let mut r = String::new();
    let mut i: usize = 0;
    while i < chars.len()
        invariant
            chars@ == s@,
            i <= chars@.len(),
            r@ == lower_view(s@.take(i as int)),
        decreases chars@.len() - i,
    {
        let c = chars[i];
        let lower = if 'A' <= c && c <= 'Z' {
            ((c as u8) + 32) as char
        } else {
            c
        };
        r.push(lower);
        i = i + 1;
        assert(r@ =~= lower_view(s@.take(i as int)));
    }
    assert(s@.take(i as int) =~= s@);
    r
}

/// Two texts that differ at most in the case of letters of ASCII.
pub fn same_ignoring_case(a: &str, b: &str) -> (r: bool)
    ensures
        r == (lower_view(a@) == lower_view(b@)),
{
    same(ascii_lower(a).as_str(), ascii_lower(b).as_str())
}

/// The first place from `i` on where `c` stands, or the length where there is none.
pub open spec fn first_place(s: Seq<char>, c: char, i: nat) -> nat
    decreases s.len() - i,
{
    if i >= s.len() {
        s.len()
    } else if s[i as int] == c {
        i
    } else {
        first_place(s, c, i + 1)
    }
}

/// What stands before and behind the first `c`.
pub open spec fn split_view(s: Seq<char>, c: char) -> Option<(Seq<char>, Seq<char>)> {
    let at = first_place(s, c, 0);
    if at < s.len() {
        Some((s.take(at as int), s.skip((at + 1) as int)))
    } else {
        None
    }
}

/// What stands before and behind the first `c`.
pub fn split_at_char(s: &str, c: char) -> (parts: Option<(String, String)>)
    ensures
        match parts {
            Some((before, behind)) => split_view(s@, c) == Some((before@, behind@)),
            None => split_view(s@, c) is None,
        },
{
    let chars = chars_of(s);
    let mut i: usize = 0;
    while i < chars.len()
        invariant
            chars@ == s@,
            i <= chars@.len(),
            first_place(s@, c, 0) == first_place(s@, c, i as nat),
        decreases chars@.len() - i,
    {
        if chars[i] == c {
            assert(s@.subrange(0, i as int) =~= s@.take(i as int));
            assert(s@.subrange(i + 1, s@.len() as int) =~= s@.skip(i + 1));
            let before = s.substring_char(0, i).to_string();
            let behind = s.substring_char(i + 1, chars.len()).to_string();
            return Some((before, behind));
        }
        i = i + 1;
    }
    None
}

/// `String::from_utf8`: the text that the bytes encode, where they are UTF-8.
#[verifier::external_body]
pub(crate) fn text_of_bytes(bytes: Vec<u8>) -> (text: Option<String>)
    ensures
        match text {
            Some(text) => valid_utf8(bytes@) && text@ == decode_utf8(bytes@),
            None => !valid_utf8(bytes@),
        },
{
    String::from_utf8(bytes).ok()
}

/// The first place from `i` on where two line feeds stand, or the length where there is none.
pub open spec fn blank_line(s: Seq<char>, i: nat) -> nat
    decreases s.len() - i,
{
    if i + 1 >= s.len() {
        s.len()
    } else if s[i as int] == '\n' && s[(i + 1) as int] == '\n' {
        i
    } else {
        blank_line(s, i + 1)
    }
}

/// The first place from `i` on where a line feed stands, or the length where there is none.
pub open spec fn line_end(s: Seq<char>, i: nat) -> nat
    decreases s.len() - i,
{
    if i >= s.len() {
        s.len()
    } else if s[i as int] == '\n' {
        i
    } else {
        line_end(s, i + 1)
    }
}

/// A blank line is found at or behind the place where the search began, and within `s`.
pub proof fn blank_line_bound(s: Seq<char>, i: nat)
    ensures
        blank_line(s, i) == s.len() || i <= blank_line(s, i) && blank_line(s, i) + 1 < s.len(),
    decreases s.len() - i,
{
    if i + 1 < s.len() {
        blank_line_bound(s, i + 1);
    }
}

/// A blank line is found at `at` where none stands before it.
pub proof fn blank_line_at(s: Seq<char>, i: nat, at: nat)
    requires
        i <= at,
        at + 1 < s.len(),
        s[at as int] == '\n',
        s[(at + 1) as int] == '\n',
        forall|k: int| i <= k < at ==> #[trigger] s[k] != '\n' || s[k + 1] != '\n',
    ensures
        blank_line(s, i) == at,
    decreases at - i,
{
    if i < at {
        assert(s[i as int] != '\n' || s[(i + 1) as int] != '\n');
        blank_line_at(s, i + 1, at);
    }
}

/// Nothing of the first `n` characters is a line feed.
pub open spec fn is_free_of_line_feeds(s: Seq<char>, n: nat) -> bool
    decreases n,
{
    n == 0 || s[n - 1] != '\n' && is_free_of_line_feeds(s, (n - 1) as nat)
}

/// Where nothing of the first `n` characters is a line feed, none of them is one.
pub proof fn free_of_line_feeds(s: Seq<char>, n: nat)
    requires
        is_free_of_line_feeds(s, n),
    ensures
        forall|i: int| 0 <= i < n ==> s[i] != '\n',
    decreases n,
{
    if n > 0 {
        free_of_line_feeds(s, (n - 1) as nat);
    }
}

/// A blank line in `s` is the first one whatever follows `s`.
pub proof fn blank_line_extends(s: Seq<char>, more: Seq<char>, i: nat)
    requires
        blank_line(s, i) < s.len(),
    ensures
        blank_line(s + more, i) == blank_line(s, i),
    decreases s.len() - i,
{
    if i + 1 < s.len() && !(s[i as int] == '\n' && s[(i + 1) as int] == '\n') {
        blank_line_extends(s, more, i + 1);
    }
}

/// A line ends at or behind the place where it begins, and within `s`.
pub proof fn line_end_bound(s: Seq<char>, i: nat)
    ensures
        line_end(s, i) <= s.len(),
        i <= s.len() ==> i <= line_end(s, i),
    decreases s.len() - i,
{
    if i < s.len() {
        line_end_bound(s, i + 1);
    }
}

/// `s` with a line feed for each carriage return and line feed, from `i` on.
pub open spec fn unix_lines(s: Seq<char>, i: nat) -> Seq<char>
    decreases s.len() - i,
{
    if i >= s.len() {
        Seq::empty()
    } else if s[i as int] == '\r' && i + 1 < s.len() && s[(i + 1) as int] == '\n' {
        seq!['\n'] + unix_lines(s, i + 2)
    } else {
        seq![s[i as int]] + unix_lines(s, i + 1)
    }
}

/// `s` with a line feed for each carriage return and line feed.
pub fn crlf_to_lf(s: &str) -> (r: String)
    ensures
        r@ == unix_lines(s@, 0),
{
    let chars = chars_of(s);
    let mut r = String::new();
    let mut i: usize = 0;
    assert(r@ + unix_lines(s@, 0) =~= unix_lines(s@, 0));
    while i < chars.len()
        invariant
            chars@ == s@,
            i <= chars@.len(),
            r@ + unix_lines(s@, i as nat) == unix_lines(s@, 0),
        decreases chars@.len() - i,
    {
        let ghost before = r@;
        if chars[i] == '\r' && chars.len() - i > 1 && chars[i + 1] == '\n' {
            r.push('\n');
            assert(before + (seq!['\n'] + unix_lines(s@, (i + 2) as nat)) =~= r@ + unix_lines(
                s@,
                (i + 2) as nat,
            ));
            i = i + 2;
        } else {
            r.push(chars[i]);
            assert(before + (seq![s@[i as int]] + unix_lines(s@, (i + 1) as nat)) =~= r@
                + unix_lines(s@, (i + 1) as nat));
            i = i + 1;
        }
    }
    assert(r@ + Seq::<char>::empty() =~= r@);
    r
}

proof fn unix_lines_from(s: Seq<char>, t: Seq<char>, i: nat)
    requires
        i <= s.len(),
        !(s.len() > 0 && t.len() > 0 && s.last() == '\r' && t[0] == '\n'),
    ensures
        unix_lines(s + t, i) == unix_lines(s, i) + unix_lines(t, 0),
    decreases s.len() - i,
{
    let both = s + t;
    if i == s.len() {
        unix_lines_shift(s, t, 0);
        assert(unix_lines(s, i) + unix_lines(t, 0) =~= unix_lines(t, 0));
    } else if s[i as int] == '\r' && i + 1 < s.len() && s[(i + 1) as int] == '\n' {
        unix_lines_from(s, t, i + 2);
        assert(unix_lines(both, i) =~= unix_lines(s, i) + unix_lines(t, 0));
    } else {
        unix_lines_from(s, t, i + 1);
        assert(unix_lines(both, i) =~= unix_lines(s, i) + unix_lines(t, 0));
    }
}

proof fn unix_lines_shift(s: Seq<char>, t: Seq<char>, i: nat)
    requires
        i <= t.len(),
    ensures
        unix_lines(s + t, s.len() + i) == unix_lines(t, i),
    decreases t.len() - i,
{
    if i < t.len() {
        if t[i as int] == '\r' && i + 1 < t.len() && t[(i + 1) as int] == '\n' {
            unix_lines_shift(s, t, i + 2);
        } else {
            unix_lines_shift(s, t, i + 1);
        }
    }
}

/// Text that arrives in two pieces has the lines that it has in one, unless the cut falls between
/// a carriage return and its line feed.
pub proof fn unix_lines_in_pieces(s: Seq<char>, t: Seq<char>)
    requires
        !(s.len() > 0 && t.len() > 0 && s.last() == '\r' && t[0] == '\n'),
    ensures
        unix_lines(s + t, 0) == unix_lines(s, 0) + unix_lines(t, 0),
{
    unix_lines_from(s, t, 0);
}

/// The decimal digits of `n`, without leading zeros.
pub open spec fn decimal_view(n: nat) -> Seq<char>
    decreases n,
{
    if n < 10 {
        seq![digit_char(n)]
    } else {
        decimal_view(n / 10).push(digit_char(n % 10))
    }
}

pub open spec fn digit_char(d: nat) -> char {
    (('0' as u32) + d) as char
}

fn digit(d: u128) -> (c: char)
    requires
        d < 10,
    ensures
        c == digit_char(d as nat),
{
    (48u8 + d as u8) as char
}

/// `n` in decimal.
pub fn decimal(n: u128) -> (r: String)
    ensures
        r@ == decimal_view(n as nat),
    decreases n,
{
    if n < 10 {
        let mut r = String::new();
        r.push(digit(n));
        assert(r@ =~= seq![digit_char(n as nat)]);
        r
    } else {
        let mut r = decimal(n / 10);
        r.push(digit(n % 10));
        r
    }
}

/// Two numbers with the same digits are the same.
pub proof fn decimal_injective(a: nat, b: nat)
    requires
        decimal_view(a) == decimal_view(b),
    ensures
        a == b,
    decreases a,
{
    let da = decimal_view(a);
    let db = decimal_view(b);
    assert(da.len() >= 1 && db.len() >= 1);
    assert(da[da.len() - 1] == digit_char(a % 10));
    assert(db[db.len() - 1] == digit_char(b % 10));
    assert(a % 10 == b % 10);
    if a < 10 {
        if b >= 10 {
            decimal_nonempty(b / 10);
        }
    } else {
        decimal_nonempty(a / 10);
        assert(b >= 10);
        assert(da.drop_last() =~= decimal_view(a / 10));
        assert(db.drop_last() =~= decimal_view(b / 10));
        decimal_injective(a / 10, b / 10);
    }
}

proof fn decimal_nonempty(n: nat)
    ensures
        decimal_view(n).len() > 0,
{
}

} // verus!
