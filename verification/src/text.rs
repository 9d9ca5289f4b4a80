//! Text as a sequence of characters.
//!
//! The specification functions here say what the string operations of this
//! library produce; the executable functions are proved to produce it.
use vstd::prelude::*;

verus! {

/// `String::push` appends one character.
pub assume_specification[ String::push ](s: &mut String, c: char)
    ensures
        final(s)@ == old(s)@.push(c),
;

/// `String::push_str` appends the whole of another string.
pub assume_specification[ String::push_str ](s: &mut String, t: &str)
    ensures
        final(s)@ == old(s)@ + t@,
;

/// The characters with Unicode's `White_Space` property.
pub open spec fn is_space(c: char) -> bool {
    ||| 0x9 <= c as u32 <= 0xd
    ||| c as u32 == 0x20
    ||| c as u32 == 0x85
    ||| c as u32 == 0xa0
    ||| c as u32 == 0x1680
    ||| 0x2000 <= c as u32 <= 0x200a
    ||| c as u32 == 0x2028
    ||| c as u32 == 0x2029
    ||| c as u32 == 0x202f
    ||| c as u32 == 0x205f
    ||| c as u32 == 0x3000
}

/// `char::is_whitespace` tests for the `White_Space` property.
pub assume_specification[ char::is_whitespace ](c: char) -> (b: bool)
    ensures
        b == is_space(c),
;

/// The characters of Unicode's general category `Cc`.
pub open spec fn is_control_char(c: char) -> bool {
    c as u32 <= 0x1f || 0x7f <= c as u32 <= 0x9f
}

/// `char::is_control` tests for the general category `Cc`.
pub assume_specification[ char::is_control ](c: char) -> (b: bool)
    ensures
        b == is_control_char(c),
;

/// A text in lower case, by Unicode's rules.
pub uninterp spec fn lowercase(s: Seq<char>) -> Seq<char>;

/// Whether a text holds ASCII characters alone.
pub open spec fn all_ascii(s: Seq<char>) -> bool {
    forall|i: int| 0 <= i < s.len() ==> (#[trigger] s[i] as u32) < 0x80
}

/// An ASCII letter in lower case, any other character as it is.
pub open spec fn ascii_lower(c: char) -> char {
    if 'A' <= c <= 'Z' {
        ((c as u32 + 32) as u8) as char
    } else {
        c
    }
}

/// `str::to_lowercase` gives the text in lower case, which for ASCII text means
/// that `A` to `Z` become `a` to `z` and nothing else changes. What becomes of
/// other characters is left to Unicode.
#[verifier::external_body]
pub(crate) fn to_lowercase(s: &str) -> (r: String)
    ensures
        r@ == lowercase(s@),
        all_ascii(s@) ==> r@ == s@.map_values(|c: char| ascii_lower(c)),
{
    s.to_lowercase()
}

/// The texts of a sequence of strings.
pub open spec fn views(v: Seq<String>) -> Seq<Seq<char>> {
    v.map_values(|s: String| s@)
}

/// The text of an optional string.
pub open spec fn opt_view(o: Option<String>) -> Option<Seq<char>> {
    match o {
        Some(s) => Some(s@),
        None => None,
    }
}

/// The characters of `s`.
pub fn chars_of(s: &str) -> (v: Vec<char>)
    ensures
        v@ == s@,
{
    let mut v: Vec<char> = Vec::new();
    for c in it: s.chars()
        invariant
            v@ == it.seq().take(it.index()),
            it.seq() == s@,
    {
        v.push(c);
    }
    v
}

/// The string made of `v[from..to]`.
pub fn string_of_range(v: &Vec<char>, from: usize, to: usize) -> (s: String)
    requires
        from <= to <= v@.len(),
    ensures
        s@ == v@.subrange(from as int, to as int),
{
    let mut s = String::new();
    let mut i: usize = from;
    while i < to
        invariant
            from <= i <= to <= v@.len(),
            s@ == v@.subrange(from as int, i as int),
        decreases to - i,
    {
        s.push(v[i]);
        i += 1;
        assert(v@.subrange(from as int, i as int) =~= v@.subrange(from as int, i - 1).push(v@[i - 1]));
    }
    s
}

/// The string made of the characters `v`.
pub fn string_of(v: &Vec<char>) -> (s: String)
    ensures
        s@ == v@,
{
    let s = string_of_range(v, 0, v.len());
    assert(v@.subrange(0, v@.len() as int) =~= v@);
    s
}

/// Whether two strings hold the same text.
pub fn same_text(a: &str, b: &str) -> (r: bool)
    ensures
        r == (a@ == b@),
{
    let x = chars_of(a);
    let y = chars_of(b);
    if x.len() != y.len() {
        return false;
    }
    let mut i: usize = 0;
    while i < x.len()
        invariant
            i <= x@.len(),
            x@.len() == y@.len(),
            x@ == a@,
            y@ == b@,
            forall|k: int| 0 <= k < i ==> x@[k] == y@[k],
        decreases x@.len() - i,
    {
        if x[i] != y[i] {
            assert(a@[i as int] != b@[i as int]);
            return false;
        }
        i += 1;
    }
    assert(a@ =~= b@);
    true
}

/// A copy of an optional string.
pub fn copy_opt(o: &Option<String>) -> (r: Option<String>)
    ensures
        r == *o,
{
    match o {
        Some(s) => Some(s.clone()),
        None => None,
    }
}

/// Whether one of the strings of `v` holds the text `s`.
pub fn holds_text(v: &Vec<String>, s: &str) -> (r: bool)
    ensures
        r == views(v@).contains(s@),
{
    let mut i: usize = 0;
    while i < v.len()
        invariant
            i <= v@.len(),
            forall|k: int| 0 <= k < i ==> v@[k]@ != s@,
        decreases v@.len() - i,
    {
        if same_text(v[i].as_str(), s) {
            assert(views(v@)[i as int] == s@);
            return true;
        }
        i += 1;
    }
    assert(!views(v@).contains(s@)) by {
        if views(v@).contains(s@) {
            let k = choose|k: int| 0 <= k < views(v@).len() && views(v@)[k] == s@;
            assert(v@[k]@ == s@);
        }
    }
    false
}

/// Whether `p` stands at position `at` of `s`.
pub open spec fn stands_at(s: Seq<char>, p: Seq<char>, at: int) -> bool {
    &&& 0 <= at
    &&& at + p.len() <= s.len()
    &&& s.subrange(at, at + p.len()) == p
}

/// Whether `s` begins with `p`.
pub open spec fn begins_with(s: Seq<char>, p: Seq<char>) -> bool {
    stands_at(s, p, 0)
}

/// Whether `s` ends with `p`.
pub open spec fn finishes_with(s: Seq<char>, p: Seq<char>) -> bool {
    stands_at(s, p, s.len() - p.len())
}

/// Whether `p` occurs in `s`.
pub open spec fn occurs_in(s: Seq<char>, p: Seq<char>) -> bool {
    exists|at: int| stands_at(s, p, at)
}

/// Whether `p` stands at position `at` of `s`.
pub fn match_at(s: &Vec<char>, p: &Vec<char>, at: usize) -> (r: bool)
    ensures
        r == stands_at(s@, p@, at as int),
{
    if at > s.len() || p.len() > s.len() - at {
        return false;
    }
    let end: usize = s.len();
    let mut i: usize = 0;
    while i < p.len()
        invariant
            i <= p@.len(),
            at + p@.len() <= end == s@.len(),
            forall|k: int| 0 <= k < i ==> s@[at + k] == p@[k],
        decreases p@.len() - i,
    {
        if s[at + i] != p[i] {
            assert(s@.subrange(at as int, at + p@.len())[i as int] != p@[i as int]);
            return false;
        }
        i += 1;
    }
    assert(s@.subrange(at as int, at + p@.len()) =~= p@);
    true
}

/// Whether `s` begins with `p`.
pub fn starts_with(s: &str, p: &str) -> (r: bool)
    ensures
        r == begins_with(s@, p@),
{
    match_at(&chars_of(s), &chars_of(p), 0)
}

/// Whether `s` ends with `p`.
pub fn ends_with(s: &str, p: &str) -> (r: bool)
    ensures
        r == finishes_with(s@, p@),
{
    let x = chars_of(s);
    let y = chars_of(p);
    if y.len() > x.len() {
        return false;
    }
    match_at(&x, &y, x.len() - y.len())
}

/// Where `p` first stands in `s`, at `from` or later.
pub fn find_from(s: &Vec<char>, p: &Vec<char>, from: usize) -> (r: Option<usize>)
    requires
        from <= s@.len(),
    ensures
        match r {
            Some(at) => from <= at && stands_at(s@, p@, at as int) && (forall|k: int|
                from <= k < at ==> !stands_at(s@, p@, k)),
            None => forall|k: int| from <= k ==> !stands_at(s@, p@, k),
        },
{
    let mut at: usize = from;
    while at < s.len()
        invariant
            from <= at <= s@.len(),
            forall|k: int| from <= k < at ==> !stands_at(s@, p@, k),
        decreases s@.len() - at,
    {
        if match_at(s, p, at) {
            return Some(at);
        }
        at += 1;
    }
    if match_at(s, p, at) {
        Some(at)
    } else {
        None
    }
}

/// Whether `p` occurs in `s`.
pub fn contains_text(s: &str, p: &str) -> (r: bool)
    ensures
        r == occurs_in(s@, p@),
{
    find_from(&chars_of(s), &chars_of(p), 0).is_some()
}

/// The words of a text: its maximal runs of characters that are no white space.
pub open spec fn words(s: Seq<char>) -> Seq<Seq<char>>
    decreases s.len(),
{
    if s.len() == 0 {
        seq![]
    } else {
        let p = s.drop_last();
        if is_space(s.last()) {
            words(p)
        } else if p.len() == 0 || is_space(p.last()) {
            words(p).push(seq![s.last()])
        } else {
            words(p).drop_last().push(words(p).last().push(s.last()))
        }
    }
}

/// Whether a text has a character that is no white space.
pub open spec fn says_something(s: Seq<char>) -> bool {
    exists|i: int| 0 <= i < s.len() && !is_space(#[trigger] s[i])
}

/// Whether a text is a word: it is not empty, and no character of it is white space.
pub open spec fn is_word(s: Seq<char>) -> bool {
    s.len() > 0 && forall|i: int| 0 <= i < s.len() ==> !is_space(#[trigger] s[i])
}

/// A text has a word exactly where it has a character that is no white space.
pub proof fn lemma_words_of_something(s: Seq<char>)
    ensures
        words(s).len() > 0 <==> says_something(s),
    decreases s.len(),
{
    if s.len() > 0 {
        let p = s.drop_last();
        lemma_words_of_something(p);
        if says_something(p) {
            let i = choose|i: int| 0 <= i < p.len() && !is_space(#[trigger] p[i]);
            assert(s[i] == p[i]);
        }
        if !is_space(s.last()) {
            assert(s[s.len() - 1] == s.last());
        } else if says_something(s) {
            let i = choose|i: int| 0 <= i < s.len() && !is_space(#[trigger] s[i]);
            assert(p[i] == s[i]);
        }
    }
}

/// What a text splits into are words.
pub proof fn lemma_words_are_words(s: Seq<char>)
    ensures
        forall|k: int| 0 <= k < words(s).len() ==> is_word(#[trigger] words(s)[k]),
    decreases s.len(),
{
    if s.len() > 0 {
        let p = s.drop_last();
        lemma_words_are_words(p);
        if !is_space(s.last()) && p.len() > 0 && !is_space(p.last()) {
            assert(p[p.len() - 1] == p.last());
            lemma_words_of_something(p);
            assert(is_word(words(p)[words(p).len() - 1]));
        }
    }
}

/// A word has itself as its only word.
pub proof fn lemma_words_of_word(s: Seq<char>)
    requires
        is_word(s),
    ensures
        words(s) == seq![s],
    decreases s.len(),
{
    let p = s.drop_last();
    assert(!is_space(s[s.len() - 1]));
    if p.len() == 0 {
        assert(words(p) =~= Seq::<Seq<char>>::empty());
        assert(seq![s.last()] =~= s);
        assert(words(s) =~= seq![s]);
    } else {
        assert forall|i: int| 0 <= i < p.len() implies !is_space(#[trigger] p[i]) by {
            assert(p[i] == s[i]);
        }
        lemma_words_of_word(p);
        assert(p.last() == p[p.len() - 1]);
        assert(p.push(s.last()) =~= s);
        assert(words(s) =~= seq![s]);
    }
}

/// The words of two texts with a space between are those of the one and then those of the other.
pub proof fn lemma_words_of_two(a: Seq<char>, b: Seq<char>)
    ensures
        words(a.push(' ') + b) == words(a) + words(b),
    decreases b.len(),
{
    let s = a.push(' ') + b;
    if b.len() == 0 {
        assert(s =~= a.push(' '));
        assert(s.drop_last() =~= a);
        assert(words(a) + words(b) =~= words(a));
    } else {
        let d = b.drop_last();
        let p = s.drop_last();
        assert(p =~= a.push(' ') + d);
        lemma_words_of_two(a, d);
        assert(s.last() == b.last());
        if !is_space(b.last()) && d.len() > 0 && !is_space(d.last()) {
            assert(p.last() == d.last());
            assert(d[d.len() - 1] == d.last());
            lemma_words_of_something(d);
            assert(words(p).last() == words(d).last());
            assert(words(s) =~= words(a) + words(b));
        } else {
            if d.len() > 0 {
                assert(p.last() == d.last());
            } else {
                assert(p.last() == ' ');
            }
            assert(words(s) =~= words(a) + words(b));
        }
    }
}

/// The words of `s`.
pub fn split_words(s: &str) -> (r: Vec<String>)
    ensures
        views(r@) == words(s@),
{
    let v = chars_of(s);
    let mut done: Vec<String> = Vec::new();
    let mut word = String::new();
    let mut in_word = false;
    let mut i: usize = 0;
    assert(v@.take(0) =~= Seq::<char>::empty());
    while i < v.len()
        invariant
            i <= v@.len(),
            in_word == (i > 0 && !is_space(v@[i - 1])),
            in_word ==> words(v@.take(i as int)) == views(done@).push(word@),
            !in_word ==> words(v@.take(i as int)) == views(done@) && word@ == Seq::<char>::empty(),
        decreases v@.len() - i,
    {
        let c = v[i];
        let ghost p = v@.take(i as int);
        assert(v@.take(i + 1).drop_last() =~= p);
        assert(i > 0 ==> p.last() == v@[i - 1]);
        if c.is_whitespace() {
            if in_word {
                let ghost before = done@;
                done.push(word);
                assert(views(done@) =~= views(before).push(done@.last()@));
                word = String::new();
                in_word = false;
            }
        } else {
            let ghost w = word@;
            word.push(c);
            assert(words(p).drop_last() =~= if in_word { views(done@) } else { words(p).drop_last() });
            assert(w.push(c) =~= if in_word { words(p).last().push(c) } else { seq![c] });
            in_word = true;
        }
        i += 1;
    }
    assert(v@.take(v@.len() as int) =~= s@);
    if in_word {
        let ghost before = done@;
        done.push(word);
        assert(views(done@) =~= views(before).push(done@.last()@));
    }
    done
}

/// The pieces of a text between the occurrences of a separator.
pub open spec fn pieces(s: Seq<char>, sep: char) -> Seq<Seq<char>>
    decreases s.len(),
{
    if s.len() == 0 {
        seq![seq![]]
    } else {
        let p = pieces(s.drop_last(), sep);
        if s.last() == sep {
            p.push(seq![])
        } else {
            p.drop_last().push(p.last().push(s.last()))
        }
    }
}

/// The pieces of `s` between the occurrences of `sep`.
pub fn split_pieces(s: &str, sep: char) -> (r: Vec<String>)
    ensures
        views(r@) == pieces(s@, sep),
        r@.len() > 0,
{
    let v = chars_of(s);
    let mut done: Vec<String> = Vec::new();
    let mut piece = String::new();
    let mut i: usize = 0;
    assert(v@.take(0) =~= Seq::<char>::empty());
    assert(views(done@).push(piece@) =~= pieces(v@.take(0), sep));
    while i < v.len()
        invariant
            i <= v@.len(),
            pieces(v@.take(i as int), sep) == views(done@).push(piece@),
        decreases v@.len() - i,
    {
        let c = v[i];
        let ghost p = pieces(v@.take(i as int), sep);
        assert(v@.take(i + 1).drop_last() =~= v@.take(i as int));
        if c == sep {
            let ghost before = done@;
            done.push(piece);
            assert(views(done@) =~= views(before).push(done@.last()@));
            piece = String::new();
            assert(piece@ =~= seq![]);
        } else {
            piece.push(c);
            assert(p.drop_last() =~= views(done@));
        }
        i += 1;
    }
    assert(v@.take(v@.len() as int) =~= s@);
    let ghost before = done@;
    done.push(piece);
    assert(views(done@) =~= views(before).push(done@.last()@));
    done
}

/// Texts joined with a separator between them.
pub open spec fn joined(parts: Seq<Seq<char>>, sep: Seq<char>) -> Seq<char>
    decreases parts.len(),
{
    if parts.len() == 0 {
        seq![]
    } else if parts.len() == 1 {
        parts[0]
    } else {
        joined(parts.drop_last(), sep) + sep + parts.last()
    }
}

/// Two lists joined as one are the one joined and the other joined, with `sep` between.
pub proof fn lemma_joined_of_two(p: Seq<Seq<char>>, q: Seq<Seq<char>>, sep: Seq<char>)
    requires
        p.len() > 0,
        q.len() > 0,
    ensures
        joined(p + q, sep) == joined(p, sep) + sep + joined(q, sep),
    decreases q.len(),
{
    let all = p + q;
    assert(all.drop_last() =~= p + q.drop_last());
    if q.len() == 1 {
        assert(p + q.drop_last() =~= p);
    } else {
        lemma_joined_of_two(p, q.drop_last(), sep);
        assert(joined(all, sep) =~= joined(p, sep) + sep + joined(q, sep));
    }
}

/// The strings of `parts` joined with `sep` between them.
pub fn join(parts: &Vec<String>, sep: &str) -> (r: String)
    ensures
        r@ == joined(views(parts@), sep@),
{
    let mut r = String::new();
    let mut i: usize = 0;
    while i < parts.len()
        invariant
            i <= parts@.len(),
            r@ == joined(views(parts@).take(i as int), sep@),
        decreases parts@.len() - i,
    {
        let ghost before = views(parts@).take(i as int);
        let ghost after = views(parts@).take(i + 1);
        assert(after.drop_last() =~= before);
        if i > 0 {
            r.push_str(sep);
        }
        r.push_str(parts[i].as_str());
        i += 1;
        assert(r@ =~= joined(after, sep@));
    }
    assert(views(parts@).take(parts@.len() as int) =~= views(parts@));
    r
}

/// A text without the white space before its first other character.
pub open spec fn trimmed_start(s: Seq<char>) -> Seq<char>
    decreases s.len(),
{
    if s.len() > 0 && is_space(s[0]) {
        trimmed_start(s.drop_first())
    } else {
        s
    }
}

/// A text without the white space behind its last other character.
pub open spec fn trimmed_end(s: Seq<char>) -> Seq<char>
    decreases s.len(),
{
    if s.len() > 0 && is_space(s.last()) {
        trimmed_end(s.drop_last())
    } else {
        s
    }
}

/// A text without the white space at its two ends.
pub open spec fn trimmed(s: Seq<char>) -> Seq<char> {
    trimmed_end(trimmed_start(s))
}

/// `s` without the white space at its two ends.
pub fn trim(s: &str) -> (r: String)
    ensures
        r@ == trimmed(s@),
{
    let v = chars_of(s);
    let mut from: usize = 0;
    assert(v@.subrange(0, v@.len() as int) =~= s@);
    while from < v.len() && v[from].is_whitespace()
        invariant
            from <= v@.len(),
            trimmed_start(s@) == trimmed_start(v@.subrange(from as int, v@.len() as int)),
        decreases v@.len() - from,
    {
        assert(v@.subrange(from as int, v@.len() as int).drop_first() =~= v@.subrange(
            from + 1,
            v@.len() as int,
        ));
        from += 1;
    }
    let mut to: usize = v.len();
    let ghost t = trimmed_start(s@);
    assert(t == v@.subrange(from as int, v@.len() as int));
    while to > from && v[to - 1].is_whitespace()
        invariant
            from <= to <= v@.len(),
            trimmed_end(t) == trimmed_end(v@.subrange(from as int, to as int)),
        decreases to,
    {
        assert(v@.subrange(from as int, to as int).drop_last() =~= v@.subrange(from as int, to - 1));
        to -= 1;
    }
    string_of_range(&v, from, to)
}

/// The digit character of a number below ten.
pub open spec fn digit(n: int) -> char {
    (n + 48) as char
}

/// A number in decimal.
pub open spec fn decimal(n: nat) -> Seq<char>
    decreases n,
{
    if n < 10 {
        seq![digit(n as int)]
    } else {
        decimal(n / 10).push(digit((n % 10) as int))
    }
}

/// A signed number in decimal.
pub open spec fn signed_decimal(n: int) -> Seq<char> {
    if n < 0 {
        seq!['-'] + decimal((-n) as nat)
    } else {
        decimal(n as nat)
    }
}

fn digit_char(n: u64) -> (c: char)
    requires
        n < 10,
    ensures
        c == digit(n as int),
{
    (n as u8 + 48u8) as char
}

/// Appends `n` in decimal.
pub fn push_decimal(s: &mut String, n: u64)
    ensures
        final(s)@ == old(s)@ + decimal(n as nat),
    decreases n,
{
    if n < 10 {
        s.push(digit_char(n));
    } else {
        push_decimal(s, n / 10);
        s.push(digit_char(n % 10));
    }
    assert(s@ =~= old(s)@ + decimal(n as nat));
}

/// `n` in decimal.
pub fn decimal_of(n: u64) -> (s: String)
    ensures
        s@ == decimal(n as nat),
{
    let mut s = String::new();
    push_decimal(&mut s, n);
    assert(s@ =~= decimal(n as nat));
    s
}

/// `n` in decimal, with a sign where it is negative.
pub fn signed_decimal_of(n: i64) -> (s: String)
    ensures
        s@ == signed_decimal(n as int),
{
    if n < 0 {
        let mut s = String::new();
        s.push('-');
        assert(s@ =~= seq!['-']);
        let m: i128 = -(n as i128);
        push_decimal(&mut s, m as u64);
        s
    } else {
        decimal_of(n as u64)
    }
}

/// Whether every character is a decimal digit.
pub open spec fn all_digits(s: Seq<char>) -> bool {
    forall|i: int| 0 <= i < s.len() ==> '0' <= #[trigger] s[i] <= '9'
}

/// The number that a sequence of digits stands for.
pub open spec fn digits_value(s: Seq<char>) -> int
    decreases s.len(),
{
    if s.len() == 0 {
        0
    } else {
        digits_value(s.drop_last()) * 10 + (s.last() as int - 48)
    }
}

/// The number that a text stands for: digits behind an optional sign.
pub open spec fn integer_value(s: Seq<char>) -> Option<int> {
    let signed = s.len() > 0 && (s[0] == '-' || s[0] == '+');
    let digits = if signed { s.drop_first() } else { s };
    if digits.len() > 0 && all_digits(digits) {
        Some(if signed && s[0] == '-' { -digits_value(digits) } else { digits_value(digits) })
    } else {
        None
    }
}

/// The number that a text stands for, where it fits an `i64`.
pub open spec fn i64_value(s: Seq<char>) -> Option<i64> {
    match integer_value(s) {
        Some(n) => if i64::MIN <= n <= i64::MAX { Some(n as i64) } else { None },
        None => None,
    }
}

/// Reads a number as `str::parse` does: digits behind an optional sign, within `i64`.
pub fn parse_i64(s: &str) -> (r: Option<i64>)
    ensures
        r == i64_value(s@),
{
    let v = chars_of(s);
    if v.len() == 0 {
        return None;
    }
    let signed = v[0] == '-' || v[0] == '+';
    let negative = v[0] == '-';
    let from: usize = if signed { 1 } else { 0 };
    let ghost digits = if signed { s@.drop_first() } else { s@ };
    assert(digits =~= v@.subrange(from as int, v@.len() as int));
    if from == v.len() {
        return None;
    }
    let limit: i128 = 0x8000_0000_0000_0000i128;
    let mut n: i128 = 0;
    let mut over = false;
    let mut i: usize = from;
    assert(digits.take(0) =~= Seq::<char>::empty());
    while i < v.len()
        invariant
            from <= i <= v@.len(),
            from <= 1,
            limit == 0x8000_0000_0000_0000i128,
            s@.len() > 0,
            signed == (s@[0] == '-' || s@[0] == '+'),
            digits == if signed { s@.drop_first() } else { s@ },
            digits == v@.subrange(from as int, v@.len() as int),
            all_digits(digits.take(i - from)),
            0 <= n <= limit,
            !over ==> n == digits_value(digits.take(i - from)),
            over ==> digits_value(digits.take(i - from)) > limit,
        decreases v@.len() - i,
    {
        let c = v[i];
        let ghost d = digits.take(i - from);
        let ghost e = digits.take(i - from + 1);
        assert(e.drop_last() =~= d);
        assert(e.last() == c);
        assert(digits[i - from] == c);
        if !('0' <= c && c <= '9') {
            assert(!all_digits(digits));
            return None;
        }
        assert(all_digits(e)) by {
            assert forall|k: int| 0 <= k < e.len() implies '0' <= #[trigger] e[k] <= '9' by {
                if k < d.len() {
                    assert(e[k] == d[k]);
                }
            }
        }
        if !over {
            let m: i128 = n * 10 + (c as u32 as i128 - 48);
            if m > limit {
                over = true;
            } else {
                n = m;
            }
        }
        i += 1;
    }
    assert(digits.take(v@.len() - from) =~= digits);
    if over {
        None
    } else if negative {
        Some((0 - n) as i64)
    } else if n < limit {
        Some(n as i64)
    } else {
        None
    }
}

/// The number that a text stands for, where it fits a `u32`; a minus sign is no part of one.
pub open spec fn u32_value(s: Seq<char>) -> Option<u32> {
    if s.len() > 0 && s[0] == '-' {
        None
    } else {
        match integer_value(s) {
            Some(n) => if n <= u32::MAX { Some(n as u32) } else { None },
            None => None,
        }
    }
}

proof fn lemma_digits_value_natural(s: Seq<char>)
    requires
        all_digits(s),
    ensures
        digits_value(s) >= 0,
    decreases s.len(),
{
    if s.len() > 0 {
        let p = s.drop_last();
        assert(all_digits(p)) by {
            assert forall|i: int| 0 <= i < p.len() implies '0' <= #[trigger] p[i] <= '9' by {
                assert(p[i] == s[i]);
            }
        }
        lemma_digits_value_natural(p);
        assert('0' <= s[s.len() - 1]);
    }
}

/// Reads a number as `str::parse` does for a `u32`.
pub fn parse_u32(s: &str) -> (r: Option<u32>)
    ensures
        r == u32_value(s@),
{
    let v = chars_of(s);
    if v.len() > 0 && v[0] == '-' {
        return None;
    }
    proof {
        if integer_value(s@) is Some {
            let signed = s@.len() > 0 && (s@[0] == '-' || s@[0] == '+');
            lemma_digits_value_natural(if signed { s@.drop_first() } else { s@ });
        }
    }
    match parse_i64(s) {
        Some(n) => if n <= u32::MAX as i64 {
            Some(n as u32)
        } else {
            None
        },
        None => None,
    }
}

/// A line without a carriage return at its end.
pub open spec fn without_return(s: Seq<char>) -> Seq<char> {
    if s.len() > 0 && s.last() == '\r' {
        s.drop_last()
    } else {
        s
    }
}

/// The lines of a text. A line feed at the end begins no further line, and a carriage return
/// before a line feed is no part of the line.
pub open spec fn lines_of(s: Seq<char>) -> Seq<Seq<char>> {
    let p = pieces(s, '\n');
    let last = p.last();
    let full = p.drop_last().map_values(|l: Seq<char>| without_return(l));
    if last.len() == 0 {
        full
    } else {
        full.push(last)
    }
}

/// The lines of `s`.
pub fn split_lines(s: &str) -> (r: Vec<String>)
    ensures
        views(r@) == lines_of(s@),
{
    let parts = split_pieces(s, '\n');
    let ghost p = pieces(s@, '\n');
    let n: usize = parts.len() - 1;
    let mut r: Vec<String> = Vec::new();
    let mut i: usize = 0;
    while i < n
        invariant
            i <= n == parts@.len() - 1,
            r@.len() == i,
            forall|k: int| 0 <= k < i ==> (#[trigger] r@[k])@ == without_return(parts@[k]@),
        decreases n - i,
    {
        let v = chars_of(parts[i].as_str());
        if v.len() > 0 && v[v.len() - 1] == '\r' {
            let line = string_of_range(&v, 0, v.len() - 1);
            assert(line@ =~= without_return(parts@[i as int]@));
            r.push(line);
        } else {
            r.push(parts[i].clone());
        }
        i += 1;
    }
    let ghost full = p.drop_last().map_values(|l: Seq<char>| without_return(l));
    assert(views(parts@) == p);
    assert(views(r@) =~= full) by {
        assert forall|k: int| 0 <= k < n implies views(r@)[k] == full[k] by {
            assert(views(parts@)[k] == parts@[k]@);
        }
    }
    assert(p.last() == parts@[n as int]@);
    if !parts[n].as_str().is_empty() {
        let ghost before = r@;
        r.push(parts[n].clone());
        assert(views(r@) =~= views(before).push(parts@[n as int]@));
    }
    r
}

/// Whether `a` and `b` are what stands before and behind the first `sep` of a text.
pub open spec fn is_split(s: Seq<char>, sep: char, a: Seq<char>, b: Seq<char>) -> bool {
    !a.contains(sep) && s == a.push(sep) + b
}

/// What stands before and behind the first `sep` of `s`.
pub fn split_once(s: &str, sep: char) -> (r: Option<(String, String)>)
    ensures
        match r {
            Some((a, b)) => is_split(s@, sep, a@, b@),
            None => !s@.contains(sep),
        },
{
    let v = chars_of(s);
    let mut i: usize = 0;
    while i < v.len()
        invariant
            i <= v@.len(),
            v@ == s@,
            forall|k: int| 0 <= k < i ==> v@[k] != sep,
        decreases v@.len() - i,
    {
        if v[i] == sep {
            let a = string_of_range(&v, 0, i);
            let b = string_of_range(&v, i + 1, v.len());
            assert(s@ =~= a@.push(sep) + b@);
            return Some((a, b));
        }
        i += 1;
    }
    None
}

/// A text that bytes stand for as UTF-8, with what is no UTF-8 replaced.
pub uninterp spec fn lossy_text(bytes: Seq<u8>) -> Seq<char>;

/// `String::from_utf8_lossy`: the text that the bytes stand for as UTF-8, with what is no UTF-8
/// replaced.
#[verifier::external_body]
pub(crate) fn from_utf8_lossy(bytes: &Vec<u8>) -> (r: String)
    ensures
        r@ == lossy_text(bytes@),
{
    String::from_utf8_lossy(bytes).into_owned()
}

} // verus!
