//! What holds of texts and numbers.
use vstd::prelude::*;
use crate::text::{
    all_digits, ascii_lower, decimal, digit, digits_value, i64_value, integer_value, is_space,
    joined, lines_of, parse_u32, pieces, signed_decimal, split_lines, split_once, trim, trimmed,
    trimmed_end, trimmed_start, u32_value, views,
};

verus! {

proof fn lemma_decimal_digits(n: nat)
    ensures
        decimal(n).len() > 0,
        all_digits(decimal(n)),
        digits_value(decimal(n)) == n,
    decreases n,
{
    if n < 10 {
        let s = seq![digit(n as int)];
        assert(s.drop_last() =~= Seq::<char>::empty());
        assert(digits_value(s.drop_last()) == 0);
        assert(s.last() as int == n + 48);
    } else {
        let q = decimal(n / 10);
        let c = digit((n % 10) as int);
        lemma_decimal_digits(n / 10);
        assert(q.push(c).drop_last() =~= q);
        assert(c as int == n % 10 + 48);
        assert forall|i: int| 0 <= i < q.push(c).len() implies '0' <= #[trigger] q.push(c)[i] <= '9' by {
            if i < q.len() {
                assert(q.push(c)[i] == q[i]);
            }
        }
    }
}

/// A number that is written down is read as that number.
pub proof fn number_reads_back(n: i64)
    ensures
        i64_value(signed_decimal(n as int)) == Some(n),
        0 <= n <= u32::MAX ==> u32_value(signed_decimal(n as int)) == Some(n as u32),
{
    let s = signed_decimal(n as int);
    if n < 0 {
        let d = decimal((-n) as nat);
        lemma_decimal_digits((-n) as nat);
        assert(s.drop_first() =~= d);
        assert(s[0] == '-');
        assert(integer_value(s) == Some(n as int));
    } else {
        lemma_decimal_digits(n as nat);
        assert('0' <= s[0] <= '9');
        assert(integer_value(s) == Some(n as int));
    }
}

/// Trimming cuts space off both ends and nothing else: what is left is a part of the text with no space
/// at its ends, and all that was cut off is space.
pub proof fn trimming_cuts_space_alone(s: &str, r: String)
    requires
        call_ensures(trim, (s,), r),
    ensures
        exists|from: int, to: int|
            #![trigger s@.subrange(from, to)]
            {
                &&& 0 <= from <= to <= s@.len()
                &&& r@ == s@.subrange(from, to)
                &&& forall|i: int| 0 <= i < from ==> is_space(#[trigger] s@[i])
                &&& forall|i: int| to <= i < s@.len() ==> is_space(#[trigger] s@[i])
                &&& from < to ==> !is_space(s@[from]) && !is_space(s@[to - 1])
            },
{
    let from = lemma_start_cut(s@);
    let t = trimmed_start(s@);
    let n = lemma_end_cut(t);
    assert(t.take(n) =~= s@.subrange(from, from + n));
    assert(r@ == s@.subrange(from, from + n));
    assert forall|i: int| from + n <= i < s@.len() implies is_space(#[trigger] s@[i]) by {
        assert(t[i - from] == s@[i]);
    }
    if n > 0 {
        assert(t[0] == s@[from]);
        assert(t[n - 1] == s@[from + n - 1]);
    }
}

proof fn lemma_start_cut(s: Seq<char>) -> (from: int)
    ensures
        0 <= from <= s.len(),
        trimmed_start(s) == s.skip(from),
        forall|i: int| 0 <= i < from ==> is_space(#[trigger] s[i]),
        from < s.len() ==> !is_space(s[from]),
    decreases s.len(),
{
    if s.len() > 0 && is_space(s[0]) {
        let d = s.drop_first();
        let k = lemma_start_cut(d);
        assert(d.skip(k) =~= s.skip(k + 1));
        assert forall|i: int| 0 <= i < k + 1 implies is_space(#[trigger] s[i]) by {
            if i > 0 {
                assert(d[i - 1] == s[i]);
            }
        }
        if k < d.len() {
            assert(d[k] == s[k + 1]);
        }
        k + 1
    } else {
        assert(s.skip(0) =~= s);
        0
    }
}

proof fn lemma_end_cut(s: Seq<char>) -> (n: int)
    ensures
        0 <= n <= s.len(),
        trimmed_end(s) == s.take(n),
        forall|i: int| n <= i < s.len() ==> is_space(#[trigger] s[i]),
        n > 0 ==> !is_space(s[n - 1]),
        s.len() > 0 && !is_space(s[0]) ==> n > 0,
    decreases s.len(),
{
    if s.len() > 0 && is_space(s.last()) {
        let d = s.drop_last();
        let n = lemma_end_cut(d);
        assert(d.take(n) =~= s.take(n));
        assert forall|i: int| n <= i < s.len() implies is_space(#[trigger] s[i]) by {
            if i < d.len() {
                assert(d[i] == s[i]);
            }
        }
        if n > 0 {
            assert(d[n - 1] == s[n - 1]);
        }
        if d.len() > 0 {
            assert(d[0] == s[0]);
        }
        n
    } else {
        assert(s.take(s.len() as int) =~= s);
        s.len() as int
    }
}

/// A number that is written down has no space to trim, and loses none but a line's end behind it.
pub proof fn trimmed_text_stays(n: int)
    requires
        n >= 0,
    ensures
        trimmed(signed_decimal(n)) == signed_decimal(n),
        trimmed(signed_decimal(n).push('\n')) == signed_decimal(n),
{
    let s = signed_decimal(n);
    lemma_decimal_digits(n as nat);
    let t = s.push('\n');
    assert(!is_space(s[0]));
    assert('0' <= s[s.len() - 1] <= '9');
    assert(!is_space(s.last()));
    assert(t[0] == s[0]);
    assert(t.drop_last() =~= s);
    assert(is_space('\n'));
    assert(t.last() == '\n');
    assert(trimmed_start(t) == t);
    assert(trimmed_end(s) == s);
    assert(trimmed_end(t) == trimmed_end(t.drop_last()));
}

/// Cutting a text at a character and joining the pieces with it gives the text back, and no piece holds
/// the character.
pub proof fn pieces_join_again(s: Seq<char>, sep: char)
    ensures
        pieces(s, sep).len() > 0,
        joined(pieces(s, sep), seq![sep]) == s,
        forall|k: int| 0 <= k < pieces(s, sep).len() ==> !(#[trigger] pieces(s, sep)[k]).contains(
            sep,
        ),
    decreases s.len(),
{
    let q = pieces(s, sep);
    if s.len() > 0 {
        let d = s.drop_last();
        let p = pieces(d, sep);
        pieces_join_again(d, sep);
        assert(d.push(s.last()) =~= s);
        if s.last() == sep {
            assert(q.drop_last() =~= p);
            assert(joined(q, seq![sep]) =~= joined(p, seq![sep]) + seq![sep] + q.last());
            assert(joined(q, seq![sep]) =~= s);
            assert forall|k: int| 0 <= k < q.len() implies !(#[trigger] q[k]).contains(sep) by {
                if k < p.len() {
                    assert(q[k] == p[k]);
                }
            }
        } else {
            let last = p.last().push(s.last());
            assert(q.drop_last() =~= p.drop_last());
            if p.len() == 1 {
                assert(p[0] == d);
                assert(joined(q, seq![sep]) =~= s);
            } else {
                assert(joined(q, seq![sep]) =~= joined(p.drop_last(), seq![sep]) + seq![sep] + last);
                assert(joined(q, seq![sep]) =~= s);
            }
            assert forall|k: int| 0 <= k < q.len() implies !(#[trigger] q[k]).contains(sep) by {
                if k < q.len() - 1 {
                    assert(q[k] == p[k]);
                } else {
                    assert(p[p.len() - 1] == p.last());
                    if q[k].contains(sep) {
                        let i = choose|i: int| 0 <= i < q[k].len() && q[k][i] == sep;
                        assert(p.last()[i] == sep);
                    }
                }
            }
        }
    } else {
        assert(joined(q, seq![sep]) =~= s);
    }
}

/// A text that holds anything but digits behind its sign is no number, nor is one without digits.
pub proof fn other_text_is_no_number(s: Seq<char>, i: int)
    requires
        s.len() == 0 || s == seq!['-'] || (0 < i < s.len() && !('0' <= s[i] <= '9')),
    ensures
        i64_value(s) is None,
        u32_value(s) is None,
{
    let signed = s.len() > 0 && (s[0] == '-' || s[0] == '+');
    let digits = if signed {
        s.drop_first()
    } else {
        s
    };
    if s == seq!['-'] {
        assert(digits.len() == 0);
    } else if s.len() > 0 {
        assert(digits[if signed {
            i - 1
        } else {
            i
        }] == s[i]);
    }
}

proof fn lemma_pieces_of_two(a: Seq<char>, sep: char, b: Seq<char>)
    requires
        !b.contains(sep),
    ensures
        pieces(a.push(sep) + b, sep) == pieces(a, sep).push(b),
    decreases b.len(),
{
    let s = a.push(sep) + b;
    if b.len() == 0 {
        assert(s =~= a.push(sep));
        assert(s.drop_last() =~= a);
        assert(b =~= Seq::<char>::empty());
    } else {
        let d = b.drop_last();
        assert forall|i: int| 0 <= i < d.len() implies d[i] != sep by {
            assert(d[i] == b[i]);
            assert(b.contains(b[i]));
        }
        assert(!d.contains(sep));
        lemma_pieces_of_two(a, sep, d);
        assert(s.drop_last() =~= a.push(sep) + d);
        assert(s.last() == b[b.len() - 1]);
        assert(b.contains(b[b.len() - 1]));
        let p = pieces(s.drop_last(), sep);
        assert(p.last() == d);
        assert(d.push(s.last()) =~= b);
        assert(pieces(s, sep) =~= pieces(a, sep).push(b));
    }
}

/// A line that ends is one line more, without the sign that ends it, be that one character or two; and
/// what stands behind the last end is a line where it is anything at all.
pub proof fn line_ends_where_it_ends(
    a: &str,
    whole: &str,
    line: Seq<char>,
    r: Vec<String>,
    s: Vec<String>,
    end: Seq<char>,
)
    requires
        call_ensures(split_lines, (a,), r),
        call_ensures(split_lines, (whole,), s),
        a@.len() > 0 ==> a@.last() == '\n',
        end == seq!['\n'] || end == seq!['\r', '\n'] || end.len() == 0 && line.len() > 0,
        whole@ == a@ + line + end,
        !line.contains('\n'),
        line.len() > 0 && end == seq!['\n'] ==> line.last() != '\r',
    ensures
        views(s@) == views(r@).push(line),
{
    let kept = if end.len() == 2 {
        line.push('\r')
    } else {
        line
    };
    assert(!kept.contains('\n')) by {
        assert forall|i: int| 0 <= i < kept.len() implies kept[i] != '\n' by {
            if i < line.len() {
                assert(line.contains(line[i]));
            }
        }
    }
    let text = a@ + kept;
    let before = if a@.len() == 0 {
        Seq::<Seq<char>>::empty()
    } else {
        pieces(a@.drop_last(), '\n')
    };
    if a@.len() == 0 {
        assert(a@ =~= Seq::<char>::empty());
        assert(text =~= kept);
        lemma_one_piece(kept, '\n');
        assert(pieces(text, '\n') =~= before.push(kept));
        assert(lines_of(a@) =~= Seq::<Seq<char>>::empty());
    } else {
        let d = a@.drop_last();
        assert(d.push('\n') =~= a@);
        lemma_pieces_of_two(d, '\n', kept);
        lemma_pieces_of_two(d, '\n', Seq::empty());
        assert(a@ =~= d.push('\n') + Seq::<char>::empty());
        assert(pieces(a@, '\n').drop_last() =~= before);
    }
    assert(pieces(text, '\n') == before.push(kept));
    let cut = |l: Seq<char>| crate::text::without_return(l);
    assert(lines_of(a@) =~= before.map_values(cut));
    if end.len() == 0 {
        assert(whole@ =~= text);
        assert(pieces(whole@, '\n').drop_last() =~= before);
        assert(lines_of(whole@) =~= lines_of(a@).push(line));
    } else {
        assert(whole@ =~= text.push('\n') + Seq::<char>::empty());
        lemma_pieces_of_two(text, '\n', Seq::empty());
        let p = pieces(whole@, '\n');
        assert(p.drop_last() =~= before.push(kept));
        assert(p.last().len() == 0);
        if end.len() == 2 {
            assert(kept.drop_last() =~= line);
        }
        assert(lines_of(whole@) =~= before.map_values(cut).push(line));
    }
}

proof fn lemma_one_piece(s: Seq<char>, sep: char)
    requires
        !s.contains(sep),
    ensures
        pieces(s, sep) == seq![s],
    decreases s.len(),
{
    if s.len() > 0 {
        let d = s.drop_last();
        assert forall|i: int| 0 <= i < d.len() implies d[i] != sep by {
            assert(d[i] == s[i]);
            assert(s.contains(s[i]));
        }
        assert(!d.contains(sep));
        lemma_one_piece(d, sep);
        assert(s.contains(s[s.len() - 1]));
        assert(d.push(s.last()) =~= s);
    } else {
        assert(s =~= Seq::<char>::empty());
    }
    assert(pieces(s, sep) =~= seq![s]);
}

/// A text is split once at the first separator; the two sides put together again are the text.
pub proof fn split_text_is_put_together(s: &str, sep: char, r: Option<(String, String)>)
    requires
        call_ensures(split_once, (s, sep), r),
    ensures
        r is None <==> !s@.contains(sep),
        r is Some ==> {
            &&& s@ == (r->0).0@.push(sep) + (r->0).1@
            &&& !(r->0).0@.contains(sep)
        },
{
    if r is Some {
        let n = (r->0).0@.len() as int;
        assert(s@[n] == sep);
    }
}

/// A capital letter of the Latin alphabet has its small one thirty-two places behind it, and no other
/// character changes.
pub proof fn capitals_become_small(c: char)
    ensures
        'A' <= c <= 'Z' ==> ascii_lower(c) as int == c as int + 32,
        !('A' <= c <= 'Z') ==> ascii_lower(c) == c,
{
}

/// A number without a sign is read as it was written, and one below zero is none.
pub proof fn small_number_reads_back(n: u32, s: &str, m: u32, t: &str, a: Option<u32>, b: Option<u32>)
    requires
        call_ensures(parse_u32, (s,), a),
        s@ == decimal(n as nat),
        call_ensures(parse_u32, (t,), b),
        t@ == seq!['-'] + decimal(m as nat),
    ensures
        a == Some(n),
        b is None,
{
    lemma_decimal_digits(n as nat);
    assert('0' <= s@[0] <= '9');
}

} // verus!
