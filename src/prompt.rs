use vstd::prelude::*;

use crate::text::{
    all_digits, chars_of, digit_value, digits_value, i32_of_text, int_of_line, int_text, is_digit,
    is_line_end, is_white, is_white_char, lead_white, lemma_digits_nonneg, lemma_digits_prefix_le,
    lemma_lead_white, lemma_nat_text, lemma_trail_line_end, lemma_trail_white, nat_text, signed_value,
    strip_line_end, trail_white, trim_white,
};

verus! {

/// What a string prompt with a default hands back for an input line.
pub open spec fn string_reply(line: Seq<char>, default: Seq<char>) -> Seq<char> {
    if strip_line_end(line).len() == 0 {
        default
    } else {
        strip_line_end(line)
    }
}

/// Where the text of `line` ends once its closing `\n` and `\r` are left out.
fn line_end_start(line: &str) -> (r: usize)
    ensures
        r <= line@.len(),
        line@.subrange(0, r as int) == strip_line_end(line@),
{
    let n = line.unicode_len();
    let mut b: usize = n;
    while b > 0 && (line.get_char(b - 1) == '\n' || line.get_char(b - 1) == '\r')
        invariant
            n == line@.len(),
            b <= n,
            forall|j: int| b <= j < n ==> is_line_end(#[trigger] line@[j]),
        decreases b,
    {
        b -= 1;
    }
    proof {
        lemma_trail_line_end(line@, (n - b) as nat);
        assert(line@.subrange(0, b as int) =~= strip_line_end(line@));
    }
    b
}

/// The input line without the `\n` and `\r` characters that close it.
pub fn strip_line(line: &str) -> (r: String)
    ensures
        r@ == strip_line_end(line@),
{
    let b = line_end_start(line);
    line.substring_char(0, b).to_owned()
}

/// Whether a prompt with a default takes the default for this input line: it is
/// blank once its line end is left out.
pub fn wants_default(line: &str) -> (r: bool)
    ensures
        r == (strip_line_end(line@).len() == 0),
{
    let b = line_end_start(line);
    assert(strip_line_end(line@).len() == b);
    b == 0
}

/// The reply of a string prompt with a default: the default on a blank line,
/// else the line without its line end.
pub fn string_or_default(line: &str, default: &str) -> (r: String)
    ensures
        r@ == string_reply(line@, default@),
{
    let b = line_end_start(line);
    assert(strip_line_end(line@).len() == b);
    if b == 0 {
        default.to_owned()
    } else {
        line.substring_char(0, b).to_owned()
    }
}

/// The integer that an input line holds, read as std reads an `i32` from the
/// line with its surrounding whitespace left out; `None` tells the prompt to ask again.
pub fn parse_int_line(line: &str) -> (r: Option<i32>)
    ensures
        r == int_of_line(line@),
{
    let s = chars_of(line);
    let n = s.len();
    let mut a: usize = 0;
    while a < n && is_white_char(s[a])
        invariant
            n == s@.len(),
            a <= n,
            forall|j: int| 0 <= j < a ==> is_white(#[trigger] s@[j]),
        decreases n - a,
    {
        a += 1;
    }
    proof {
        lemma_lead_white(s@, a as nat);
    }
    let mut b: usize = n;
    while b > a && is_white_char(s[b - 1])
        invariant
            n == s@.len(),
            a <= b <= n,
            forall|j: int| b <= j < n ==> is_white(#[trigger] s@[j]),
        decreases b,
    {
        b -= 1;
    }
    let ghost t = s@.subrange(a as int, n as int);
    proof {
        assert forall|j: int| t.len() - (n - b) <= j < t.len() implies is_white(#[trigger] t[j]) by {
            assert(t[j] == s@[a + j]);
        }
        if b > a {
            assert(t[t.len() - (n - b) - 1] == s@[b - 1]);
        }
        lemma_trail_white(t, (n - b) as nat);
        assert(trim_white(s@) =~= s@.subrange(a as int, b as int));
    }
    let ghost w = s@.subrange(a as int, b as int);
    if a == b {
        return None;
    }
    let negative = s[a] == '-';
    let mut i: usize = a;
    if s[a] == '-' || s[a] == '+' {
        i = a + 1;
    }
    let start = i;
    let ghost body = s@.subrange(start as int, b as int);
    assert(body =~= (if i > a { w.drop_first() } else { w }));
    if i == b {
        return None;
    }
    let mut v: u64 = 0;
    while i < b
        invariant
            a <= start <= i <= b <= n,
            n == s@.len(),
            body == s@.subrange(start as int, b as int),
            w == s@.subrange(a as int, b as int),
            w == trim_white(line@),
            s@ == line@,
            w.len() > 0,
            body == (if w[0] == '-' || w[0] == '+' { w.drop_first() } else { w }),
            negative == (w[0] == '-'),
            all_digits(s@.subrange(start as int, i as int)),
            v == digits_value(s@.subrange(start as int, i as int)),
            v <= 2147483648,
        decreases b - i,
    {
        let c = s[i];
        let u = c as u32;
        if !(48 <= u && u <= 57) {
            assert(body[i - start] == c);
            assert(!is_digit(body[i - start]));
            assert(!all_digits(body));
            return None;
        }
        let ghost p = s@.subrange(start as int, i as int);
        let ghost q = s@.subrange(start as int, i + 1);
        assert(q.drop_last() =~= p);
        assert(q.last() == c);
        assert(all_digits(q)) by {
            assert forall|j: int| 0 <= j < q.len() implies is_digit(#[trigger] q[j]) by {
                if j < p.len() {
                    assert(q[j] == p[j]);
                }
            }
        }
        v = v * 10 + ((u - 48) as u64);
        i += 1;
        if v > 2147483648 {
            proof {
                if all_digits(body) {
                    assert(body.subrange(0, i - start) =~= q);
                    lemma_digits_prefix_le(body, i - start);
                }
            }
            return None;
        }
    }
    assert(s@.subrange(start as int, i as int) =~= body);
    if negative {
        Some((0 - (v as i64)) as i32)
    } else if v <= 2147483647 {
        Some(v as i32)
    } else {
        None
    }
}

/// A line holding the decimal form of an `i32`, closed by a line feed, reads
/// back as that integer.
pub proof fn integer_line_round_trip(i: i32)
    ensures
        int_of_line(int_text(i as int) + seq!['\n']) == Some(i),
{
    let m: nat = if i < 0 {
        (-(i as int)) as nat
    } else {
        i as nat
    };
    lemma_nat_text(m);
    let d = int_text(i as int);
    let s = d + seq!['\n'];
    assert(d.len() > 0);
    assert(!is_white(d[0])) by {
        if i < 0 {
            assert(d[0] == '-');
        } else {
            assert(is_digit(d[0]));
        }
    }
    assert(s[0] == d[0]);
    lemma_lead_white(s, 0);
    let t = s.subrange(0, s.len() as int);
    assert(t =~= s);
    assert(s[s.len() - 1] == '\n');
    assert(!is_white(s[s.len() - 2])) by {
        assert(s[s.len() - 2] == d[d.len() - 1]);
        if i < 0 {
            assert(d[d.len() - 1] == nat_text(m)[nat_text(m).len() - 1]);
        }
        assert(is_digit(nat_text(m)[nat_text(m).len() - 1]));
    }
    lemma_trail_white(s, 1);
    assert(trim_white(s) =~= d);
    if i < 0 {
        assert(d.drop_first() =~= nat_text(m));
    }
    assert(signed_value(d) == Some(i as int));
}

/// A line with no digit in it never yields an integer, so the prompt asks again.
pub proof fn non_numeric_line_retries(line: Seq<char>)
    requires
        forall|j: int| 0 <= j < line.len() ==> !is_digit(#[trigger] line[j]),
    ensures
        int_of_line(line) is None,
{
    let t = trim_white(line);
    let a = lead_white(line) as int;
    let u = line.subrange(a, line.len() as int);
    lemma_lead_bound(line);
    lemma_trail_bound(u);
    assert forall|j: int| 0 <= j < t.len() implies !is_digit(#[trigger] t[j]) by {
        assert(t[j] == line[a + j]);
    }
    if t.len() > 0 {
        let body = if t[0] == '-' || t[0] == '+' {
            t.drop_first()
        } else {
            t
        };
        if body.len() > 0 {
            assert(!is_digit(body[0])) by {
                if t[0] == '-' || t[0] == '+' {
                    assert(body[0] == t[1]);
                }
            }
        }
    }
}

proof fn lemma_lead_bound(s: Seq<char>)
    ensures
        lead_white(s) <= s.len(),
    decreases s.len(),
{
    if s.len() > 0 {
        lemma_lead_bound(s.drop_first());
    }
}

proof fn lemma_trail_bound(s: Seq<char>)
    ensures
        trail_white(s) <= s.len(),
    decreases s.len(),
{
    if s.len() > 0 {
        lemma_trail_bound(s.drop_last());
    }
}

} // verus!
