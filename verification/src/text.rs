//! Small verified text utilities: whitespace classification, trimming,
//! splitting on a separator, joining words, and rendering integers as
//! decimal strings.

use vstd::prelude::*;

verus! {

/// Whitespace as this library understands it: the ASCII space, tab,
/// newline and carriage return characters.
pub open spec fn is_space_char(c: char) -> bool {
    c == ' ' || c == '\t' || c == '\n' || c == '\r'
}

/// A sequence is blank when every character in it is whitespace;
/// the empty sequence is blank.
pub open spec fn is_blank(s: Seq<char>) -> bool {
    forall|i: int| 0 <= i < s.len() ==> is_space_char(s[i])
}

pub fn is_space(c: char) -> (r: bool)
    ensures
        r == is_space_char(c),
{
    c == ' ' || c == '\t' || c == '\n' || c == '\r'
}

/// Whether a string consists of whitespace only (or is empty).
pub fn is_blank_str(s: &str) -> (r: bool)
    ensures
        r == is_blank(s@),
{
    let n = s.unicode_len();
    let mut i: usize = 0;
    while i < n
        invariant
            n == s@.len(),
            0 <= i <= n,
            forall|j: int| 0 <= j < i ==> is_space_char(s@[j]),
        decreases n - i,
    {
        if !is_space(s.get_char(i)) {
            return false;
        }
        i = i + 1;
    }
    true
}

/// The sequence with leading whitespace removed.
pub open spec fn spec_trim_start(s: Seq<char>) -> Seq<char>
    decreases s.len(),
{
    if s.len() > 0 && is_space_char(s[0]) {
        spec_trim_start(s.drop_first())
    } else {
        s
    }
}

/// The sequence with trailing whitespace removed.
pub open spec fn spec_trim_end(s: Seq<char>) -> Seq<char>
    decreases s.len(),
{
    if s.len() > 0 && is_space_char(s.last()) {
        spec_trim_end(s.drop_last())
    } else {
        s
    }
}

/// The sequence with whitespace removed from both ends.
pub open spec fn spec_trim(s: Seq<char>) -> Seq<char> {
    spec_trim_end(spec_trim_start(s))
}

proof fn lemma_trim_start_at(s: Seq<char>, a: int)
    requires
        0 <= a <= s.len(),
        forall|i: int| 0 <= i < a ==> is_space_char(s[i]),
        a < s.len() ==> !is_space_char(s[a]),
    ensures
        spec_trim_start(s) == s.subrange(a, s.len() as int),
    decreases a,
{
    if a == 0 {
        if s.len() > 0 && is_space_char(s[0]) {
            assert(false);
        }
        assert(s.subrange(0, s.len() as int) =~= s);
    } else {
        assert(is_space_char(s[0]));
        let t = s.drop_first();
        lemma_trim_start_at(t, a - 1);
        assert(t.subrange(a - 1, t.len() as int) =~= s.subrange(a, s.len() as int));
    }
}

proof fn lemma_trim_end_at(s: Seq<char>, b: int)
    requires
        0 <= b <= s.len(),
        forall|i: int| b <= i < s.len() ==> is_space_char(s[i]),
        b > 0 ==> !is_space_char(s[b - 1]),
    ensures
        spec_trim_end(s) == s.subrange(0, b),
    decreases s.len(),
{
    if b == s.len() {
        if s.len() > 0 && is_space_char(s.last()) {
            assert(false);
        }
        assert(s.subrange(0, s.len() as int) =~= s);
    } else {
        assert(is_space_char(s.last()));
        let t = s.drop_last();
        lemma_trim_end_at(t, b);
        assert(t.subrange(0, b) =~= s.subrange(0, b));
    }
}

/// A copy of `s` with leading and trailing whitespace removed.
pub fn trim_str(s: &str) -> (r: String)
    ensures
        r@ == spec_trim(s@),
{
    let n = s.unicode_len();
    let mut a: usize = 0;
    while a < n && is_space(s.get_char(a))
        invariant
            n == s@.len(),
            0 <= a <= n,
            forall|j: int| 0 <= j < a ==> is_space_char(s@[j]),
        decreases n - a,
    {
        a = a + 1;
    }
    let mut b: usize = n;
    while b > a && is_space(s.get_char(b - 1))
        invariant
            n == s@.len(),
            a <= b <= n,
            forall|j: int| b <= j < n ==> is_space_char(s@[j]),
        decreases b,
    {
        b = b - 1;
    }
    proof {
        lemma_trim_start_at(s@, a as int);
        let t = s@.subrange(a as int, s@.len() as int);
        lemma_trim_end_at(t, b - a);
        assert(t.subrange(0, b - a) =~= s@.subrange(a as int, b as int));
    }
    let piece = s.substring_char(a, b);
    piece.to_owned()
}

/// The segments of `s` between occurrences of the separator, in order.
/// Splitting the empty sequence yields one empty segment, as `str::split`
/// does.
pub open spec fn spec_split(s: Seq<char>, sep: char) -> Seq<Seq<char>>
    decreases s.len(),
{
    if s.len() == 0 {
        seq![Seq::<char>::empty()]
    } else {
        let init = spec_split(s.drop_last(), sep);
        if s.last() == sep {
            init.push(Seq::<char>::empty())
        } else {
            init.update(init.len() - 1, init.last().push(s.last()))
        }
    }
}

proof fn lemma_spec_split_nonempty(s: Seq<char>, sep: char)
    ensures
        spec_split(s, sep).len() >= 1,
    decreases s.len(),
{
    if s.len() > 0 {
        lemma_spec_split_nonempty(s.drop_last(), sep);
    }
}

/// Split a string on a separator character. The result always holds at
/// least one element; separators at the ends yield empty segments.
pub fn split_on(s: &str, sep: char) -> (r: Vec<String>)
    ensures
        r@.map_values(|t: String| t@) == spec_split(s@, sep),
{
    let n = s.unicode_len();
    let mut done: Vec<String> = Vec::new();
    let mut start: usize = 0;
    let mut i: usize = 0;
    proof {
        assert(spec_split(s@.subrange(0, 0), sep) =~~= done@.map_values(|t: String| t@).push(
            s@.subrange(0, 0),
        ));
    }
    while i < n
        invariant
            n == s@.len(),
            0 <= start <= i <= n,
            spec_split(s@.subrange(0, i as int), sep) == done@.map_values(|t: String| t@).push(
                s@.subrange(start as int, i as int),
            ),
        decreases n - i,
    {
        let ghost prefix = s@.subrange(0, i as int);
        let ghost segment = s@.subrange(start as int, i as int);
        let c = s.get_char(i);
        proof {
            assert(s@.subrange(0, i + 1).drop_last() =~= prefix);
            assert(s@.subrange(0, i + 1).last() == s@[i as int]);
            lemma_spec_split_nonempty(prefix, sep);
        }
        if is_sep(c, sep) {
            let piece = s.substring_char(start, i);
            done.push(piece.to_owned());
            start = i + 1;
            proof {
                assert(spec_split(s@.subrange(0, i + 1), sep) =~~= done@.map_values(
                    |t: String| t@,
                ).push(s@.subrange(i + 1, i + 1)));
            }
        } else {
            proof {
                let views = done@.map_values(|t: String| t@);
                let whole = views.push(segment);
                assert(whole.last() == segment);
                assert(whole.update(whole.len() - 1, segment.push(s@[i as int])) =~~= views.push(
                    s@.subrange(start as int, i + 1),
                ));
            }
        }
        i = i + 1;
    }
    proof {
        assert(s@.subrange(0, n as int) =~= s@);
    }
    let piece = s.substring_char(start, n);
    done.push(piece.to_owned());
    done
}

fn is_sep(c: char, sep: char) -> (r: bool)
    ensures
        r == (c == sep),
{
    c == sep
}

/// The words joined with a single space between consecutive words.
pub open spec fn spec_join_words(ws: Seq<Seq<char>>) -> Seq<char>
    decreases ws.len(),
{
    if ws.len() == 0 {
        Seq::<char>::empty()
    } else if ws.len() == 1 {
        ws[0]
    } else {
        spec_join_words(ws.drop_last()) + seq![' '] + ws.last()
    }
}

/// Join words with single spaces, as the command line does when a
/// question is given as several arguments.
pub fn join_words(ws: &Vec<String>) -> (r: String)
    ensures
        r@ == spec_join_words(ws@.map_values(|t: String| t@)),
{
    let mut out = String::new();
    let mut i: usize = 0;
    while i < ws.len()
        invariant
            0 <= i <= ws@.len(),
            out@ == spec_join_words(ws@.map_values(|t: String| t@).subrange(0, i as int)),
        decreases ws@.len() - i,
    {
        let ghost views = ws@.map_values(|t: String| t@);
        if i > 0 {
            out.append(" ");
        }
        out.append(ws[i].as_str());
        proof {
            reveal_strlit(" ");
            assert(" "@ =~= seq![' ']);
            assert(views.subrange(0, i + 1).drop_last() =~= views.subrange(0, i as int));
            assert(views.subrange(0, i + 1).last() == views[i as int]);
            if i == 0 {
                assert(views.subrange(0, 1) =~= seq![views[0]]);
            }
        }
        i = i + 1;
    }
    proof {
        assert(ws@.map_values(|t: String| t@).subrange(0, ws@.len() as int) =~= ws@.map_values(
            |t: String| t@,
        ));
    }
    out
}

/// Whether two string slices read the same.
pub fn str_eq(a: &str, b: &str) -> (r: bool)
    ensures
        r == (a@ == b@),
{
    a.to_owned().eq(&b.to_owned())
}

/// The character for a single decimal digit.
pub open spec fn digit_char(d: nat) -> char {
    if d == 0 {
        '0'
    } else if d == 1 {
        '1'
    } else if d == 2 {
        '2'
    } else if d == 3 {
        '3'
    } else if d == 4 {
        '4'
    } else if d == 5 {
        '5'
    } else if d == 6 {
        '6'
    } else if d == 7 {
        '7'
    } else if d == 8 {
        '8'
    } else {
        '9'
    }
}

/// The decimal digits of `n`, most significant first, with no leading
/// zeros (zero itself is the single digit `0`).
pub open spec fn spec_digits(n: nat) -> Seq<char>
    decreases n,
{
    if n < 10 {
        seq![digit_char(n)]
    } else {
        spec_digits(n / 10) + seq![digit_char(n % 10)]
    }
}

fn digit_str(d: u64) -> (r: &'static str)
    requires
        d < 10,
    ensures
        r@ == seq![digit_char(d as nat)],
{
    proof {
        reveal_strlit("0");
        reveal_strlit("1");
        reveal_strlit("2");
        reveal_strlit("3");
        reveal_strlit("4");
        reveal_strlit("5");
        reveal_strlit("6");
        reveal_strlit("7");
        reveal_strlit("8");
        reveal_strlit("9");
    }
    if d == 0 {
        "0"
    } else if d == 1 {
        "1"
    } else if d == 2 {
        "2"
    } else if d == 3 {
        "3"
    } else if d == 4 {
        "4"
    } else if d == 5 {
        "5"
    } else if d == 6 {
        "6"
    } else if d == 7 {
        "7"
    } else if d == 8 {
        "8"
    } else {
        "9"
    }
}

/// Render an unsigned integer as its decimal digits.
pub fn u64_to_string(n: u64) -> (r: String)
    ensures
        r@ == spec_digits(n as nat),
    decreases n,
{
    if n < 10 {
        digit_str(n).to_owned()
    } else {
        let mut s = u64_to_string(n / 10);
        s.append(digit_str(n % 10));
        s
    }
}

} // verus!
