//! Small verified text utilities: decimal rendering of integers and
//! case-insensitive lexicographic comparison of strings.

use vstd::prelude::*;

verus! {

/// The decimal digit character for a value between 0 and 9.
pub open spec fn spec_digit_char(d: int) -> char {
    if d == 0 {
        '0'
    } else if d == 1 {
        '1'
    } else if d == 2 {
        '2'
    } else if d == 3 {
        '3'
    } else if d == 4 {
        '4'
    } else if d == 5 {
        '5'
    } else if d == 6 {
        '6'
    } else if d == 7 {
        '7'
    } else if d == 8 {
        '8'
    } else {
        '9'
    }
}

/// The usual decimal rendering of a non-negative integer: no leading zeros,
/// except that zero itself is rendered as "0".
pub open spec fn spec_dec(n: int) -> Seq<char>
    recommends
        n >= 0,
    decreases n,
{
    if n < 10 {
        seq![spec_digit_char(n)]
    } else {
        spec_dec(n / 10).push(spec_digit_char(n % 10))
    }
}

/// One decimal digit as a string slice.
pub(crate) fn digit_str(d: u64) -> (r: &'static str)
    requires
        d < 10,
    ensures
        r@ == seq![spec_digit_char(d as int)],
{
    proof {
        reveal_strlit("0");
        reveal_strlit("1");
        reveal_strlit("2");
        reveal_strlit("3");
        reveal_strlit("4");
        reveal_strlit("5");
        reveal_strlit("6");
        reveal_strlit("7");
        reveal_strlit("8");
        reveal_strlit("9");
    }
    let r: &'static str = if d == 0 {
        "0"
    } else if d == 1 {
        "1"
    } else if d == 2 {
        "2"
    } else if d == 3 {
        "3"
    } else if d == 4 {
        "4"
    } else if d == 5 {
        "5"
    } else if d == 6 {
        "6"
    } else if d == 7 {
        "7"
    } else if d == 8 {
        "8"
    } else {
        "9"
    };
    proof {
        assert(r@ =~= seq![spec_digit_char(d as int)]);
    }
    r
}

/// Renders an unsigned integer in decimal.
pub fn u64_to_string(n: u64) -> (r: String)
    ensures
        r@ == spec_dec(n as int),
    decreases n,
{
    if n < 10 {
        digit_str(n).to_owned()
    } else {
        let mut s = u64_to_string(n / 10);
        s.append(digit_str(n % 10));
        proof {
            assert(s@ =~= spec_dec(n as int));
        }
        s
    }
}

/// Whether two string slices hold the same characters.
pub fn str_eq(a: &str, b: &str) -> (r: bool)
    ensures
        r == (a@ == b@),
{
    let oa = a.to_owned();
    let ob = b.to_owned();
    oa == ob
}

/// The string without its trailing `/` characters.
pub open spec fn trim_trailing_slashes(s: Seq<char>) -> Seq<char>
    decreases s.len(),
{
    if s.len() > 0 && s.last() == '/' {
        trim_trailing_slashes(s.drop_last())
    } else {
        s
    }
}

/// The longest suffix that holds no `/`: everything after the last `/`,
/// or the whole string when there is none.
pub open spec fn suffix_after_last_slash(s: Seq<char>) -> Seq<char>
    decreases s.len(),
{
    if s.len() == 0 {
        s
    } else if s.last() == '/' {
        Seq::empty()
    } else {
        suffix_after_last_slash(s.drop_last()).push(s.last())
    }
}

/// Finds where the final path segment of `s` sits: returns `(end, start)`
/// such that `s[..end]` is the string without trailing slashes and
/// `s[start..end]` is its final `/`-free segment.
pub fn path_segment_bounds(s: &str) -> (r: (usize, usize))
    ensures
        r.1 <= r.0 <= s@.len(),
        trim_trailing_slashes(s@) == s@.subrange(0, r.0 as int),
        suffix_after_last_slash(trim_trailing_slashes(s@)) == s@.subrange(r.1 as int, r.0 as int),
{
    let n = s.unicode_len();
    proof {
        assert(s@.subrange(0, n as int) =~= s@);
    }
    let mut i = n;
    while i > 0 && s.get_char(i - 1) == '/'
        invariant
            i <= n,
            n == s@.len(),
            trim_trailing_slashes(s@) == trim_trailing_slashes(s@.subrange(0, i as int)),
        decreases i,
    {
        proof {
            assert(s@.subrange(0, i as int).drop_last() =~= s@.subrange(0, i as int - 1));
        }
        i = i - 1;
    }
    proof {
        if i > 0 {
            assert(s@.subrange(0, i as int).last() == s@[i as int - 1]);
        }
        assert(trim_trailing_slashes(s@) == s@.subrange(0, i as int));
    }
    let ghost t = s@.subrange(0, i as int);
    let mut j = i;
    while j > 0 && s.get_char(j - 1) != '/'
        invariant
            j <= i <= n,
            n == s@.len(),
            t == s@.subrange(0, i as int),
            trim_trailing_slashes(s@) == t,
            suffix_after_last_slash(t) == suffix_after_last_slash(s@.subrange(0, j as int)) + s@.subrange(
                j as int,
                i as int,
            ),
        decreases j,
    {
        proof {
            assert(s@.subrange(0, j as int).drop_last() =~= s@.subrange(0, j as int - 1));
            assert(s@.subrange(0, j as int).last() == s@[j as int - 1]);
            assert(suffix_after_last_slash(s@.subrange(0, j as int)) == suffix_after_last_slash(
                s@.subrange(0, j as int - 1),
            ).push(s@[j as int - 1]));
            assert(suffix_after_last_slash(s@.subrange(0, j as int - 1)) + s@.subrange(
                j as int - 1,
                i as int,
            ) =~= suffix_after_last_slash(s@.subrange(0, j as int)) + s@.subrange(j as int, i as int));
        }
        j = j - 1;
    }
    proof {
        if j == 0 {
            assert(s@.subrange(0, 0) =~= Seq::<char>::empty());
            assert(suffix_after_last_slash(s@.subrange(0, 0)) + s@.subrange(0, i as int)
                =~= s@.subrange(0, i as int));
        } else {
            assert(s@.subrange(0, j as int).last() == s@[j as int - 1]);
            assert(suffix_after_last_slash(s@.subrange(0, j as int)) =~= Seq::<char>::empty());
            assert(Seq::<char>::empty() + s@.subrange(j as int, i as int) =~= s@.subrange(
                j as int,
                i as int,
            ));
        }
        assert(suffix_after_last_slash(t) == s@.subrange(j as int, i as int));
    }
    (i, j)
}

/// Whether a character counts as padding around an exclusion name: an
/// ASCII space or tab.
pub open spec fn is_space(c: char) -> bool {
    c == ' ' || c == '\t'
}

/// The string without leading spaces.
pub open spec fn trim_leading_spaces(s: Seq<char>) -> Seq<char>
    decreases s.len(),
{
    if s.len() > 0 && is_space(s.first()) {
        trim_leading_spaces(s.drop_first())
    } else {
        s
    }
}

/// The string without trailing spaces.
pub open spec fn trim_trailing_spaces(s: Seq<char>) -> Seq<char>
    decreases s.len(),
{
    if s.len() > 0 && is_space(s.last()) {
        trim_trailing_spaces(s.drop_last())
    } else {
        s
    }
}

/// The string without leading or trailing spaces.
pub open spec fn spec_trim(s: Seq<char>) -> Seq<char> {
    trim_leading_spaces(trim_trailing_spaces(s))
}

/// Whether a character is an ASCII space or tab.
fn is_space_char(c: char) -> (r: bool)
    ensures
        r == is_space(c),
{
    c == ' ' || c == '\t'
}

/// Removes leading and trailing ASCII spaces and tabs.
pub fn trim_spaces(s: &str) -> (r: String)
    ensures
        r@ == spec_trim(s@),
{
    let n = s.unicode_len();
    proof {
        assert(s@.subrange(0, n as int) =~= s@);
    }
    let mut j = n;
    while j > 0 && is_space_char(s.get_char(j - 1))
        invariant
            j <= n,
            n == s@.len(),
            trim_trailing_spaces(s@) == trim_trailing_spaces(s@.subrange(0, j as int)),
        decreases j,
    {
        proof {
            assert(s@.subrange(0, j as int).drop_last() =~= s@.subrange(0, j as int - 1));
        }
        j = j - 1;
    }
    proof {
        if j > 0 {
            assert(s@.subrange(0, j as int).last() == s@[j as int - 1]);
        }
        assert(trim_trailing_spaces(s@) == s@.subrange(0, j as int));
    }
    let ghost t = s@.subrange(0, j as int);
    let mut i: usize = 0;
    while i < j && is_space_char(s.get_char(i))
        invariant
            i <= j <= n,
            n == s@.len(),
            t == s@.subrange(0, j as int),
            trim_trailing_spaces(s@) == t,
            trim_leading_spaces(t) == trim_leading_spaces(s@.subrange(i as int, j as int)),
        decreases j - i,
    {
        proof {
            assert(s@.subrange(i as int, j as int).first() == s@[i as int]);
            assert(s@.subrange(i as int, j as int).drop_first() =~= s@.subrange(
                i as int + 1,
                j as int,
            ));
        }
        i = i + 1;
    }
    proof {
        assert(trim_leading_spaces(s@.subrange(i as int, j as int)) == s@.subrange(
            i as int,
            j as int,
        ));
    }
    s.substring_char(i, j).to_owned()
}

/// The pieces of a string split at every occurrence of a separator: always
/// at least one piece, and no piece holds the separator.
pub open spec fn spec_split(s: Seq<char>, sep: char) -> Seq<Seq<char>>
    decreases s.len(),
{
    if s.len() == 0 {
        seq![s]
    } else if s[0] == sep {
        seq![Seq::<char>::empty()] + spec_split(s.drop_first(), sep)
    } else {
        let rest = spec_split(s.drop_first(), sep);
        seq![seq![s[0]] + rest[0]] + rest.drop_first()
    }
}

/// Splitting never yields an empty list of pieces.
proof fn lemma_split_len(s: Seq<char>, sep: char)
    ensures
        spec_split(s, sep).len() >= 1,
    decreases s.len(),
{
    if s.len() > 0 {
        lemma_split_len(s.drop_first(), sep);
    }
}

/// How splitting grows when one character is appended: a separator opens a
/// new empty piece; any other character extends the last piece.
proof fn lemma_split_push(s: Seq<char>, sep: char, c: char)
    ensures
        spec_split(s.push(c), sep) == if c == sep {
            spec_split(s, sep).push(Seq::<char>::empty())
        } else {
            let pieces = spec_split(s, sep);
            pieces.update(pieces.len() - 1, pieces.last().push(c))
        },
    decreases s.len(),
{
    reveal_with_fuel(spec_split, 3);
    lemma_split_len(s, sep);
    if s.len() == 0 {
        assert(s =~~= Seq::<char>::empty());
        assert(s.push(c) =~~= seq![c]);
        assert(s.push(c).drop_first() =~~= s);
        if c == sep {
            assert(spec_split(s.push(c), sep) =~~= spec_split(s, sep).push(Seq::<char>::empty()));
        } else {
            assert(spec_split(s.push(c), sep) =~~= spec_split(s, sep).update(
                0,
                spec_split(s, sep).last().push(c),
            ));
        }
    } else {
        assert(s.push(c).drop_first() =~~= s.drop_first().push(c));
        lemma_split_push(s.drop_first(), sep, c);
        lemma_split_len(s.drop_first(), sep);
        if c == sep {
            assert(spec_split(s.push(c), sep) =~~= spec_split(s, sep).push(Seq::<char>::empty()));
        } else {
            let pieces = spec_split(s, sep);
            if s[0] == sep {
                assert(spec_split(s.push(c), sep) =~~= pieces.update(
                    pieces.len() - 1,
                    pieces.last().push(c),
                ));
            } else {
                let rest = spec_split(s.drop_first(), sep);
                if rest.len() == 1 {
                    assert(spec_split(s.push(c), sep) =~~= pieces.update(
                        pieces.len() - 1,
                        pieces.last().push(c),
                    ));
                } else {
                    assert(spec_split(s.push(c), sep) =~~= pieces.update(
                        pieces.len() - 1,
                        pieces.last().push(c),
                    ));
                }
            }
        }
    }
}

/// Splits a string at every occurrence of a separator character.
pub fn split_str(s: &str, sep: char) -> (r: Vec<String>)
    ensures
        r.deep_view() == spec_split(s@, sep),
{
    let n = s.unicode_len();
    let mut out: Vec<String> = Vec::new();
    let mut start: usize = 0;
    let mut i: usize = 0;
    proof {
        assert(s@.subrange(0, 0) =~~= Seq::<char>::empty());
        assert(out.deep_view().push(s@.subrange(0, 0)) =~~= spec_split(s@.subrange(0, 0), sep));
    }
    while i < n
        invariant
            start <= i <= n,
            n == s@.len(),
            out.deep_view().push(s@.subrange(start as int, i as int)) == spec_split(
                s@.subrange(0, i as int),
                sep,
            ),
        decreases n - i,
    {
        let c = s.get_char(i);
        proof {
            assert(s@.subrange(0, i as int + 1) =~~= s@.subrange(0, i as int).push(s@[i as int]));
            lemma_split_push(s@.subrange(0, i as int), sep, s@[i as int]);
            lemma_split_len(s@.subrange(0, i as int), sep);
        }
        if c == sep {
            out.push(s.substring_char(start, i).to_owned());
            start = i + 1;
            proof {
                assert(s@.subrange(start as int, i as int + 1) =~~= Seq::<char>::empty());
                assert(out.deep_view().push(s@.subrange(start as int, i as int + 1)) =~~= spec_split(
                    s@.subrange(0, i as int + 1),
                    sep,
                ));
            }
        } else {
            proof {
                assert(s@.subrange(start as int, i as int + 1) =~~= s@.subrange(
                    start as int,
                    i as int,
                ).push(s@[i as int]));
                let prev = spec_split(s@.subrange(0, i as int), sep);
                assert(prev.last() == s@.subrange(start as int, i as int));
                assert(out.deep_view().push(s@.subrange(start as int, i as int + 1)) =~~= prev.update(
                    prev.len() - 1,
                    prev.last().push(s@[i as int]),
                ));
            }
        }
        i = i + 1;
    }
    out.push(s.substring_char(start, n).to_owned());
    proof {
        assert(s@.subrange(0, n as int) =~~= s@);
        assert(out.deep_view() =~~= spec_split(s@, sep));
    }
    out
}

/// The code a character sorts by when case is ignored: ASCII capital
/// letters sort as their small forms; every other character sorts by its
/// code point.
pub open spec fn lower_code(c: char) -> int {
    if 65 <= c as int && c as int <= 90 {
        c as int + 32
    } else {
        c as int
    }
}

/// Case-insensitive lexicographic order on strings: characters are
/// compared by `lower_code`, and a prefix sorts before what extends it.
pub open spec fn lex_le_ci(a: Seq<char>, b: Seq<char>) -> bool
    decreases a.len(),
{
    if a.len() == 0 {
        true
    } else if b.len() == 0 {
        false
    } else if lower_code(a.first()) < lower_code(b.first()) {
        true
    } else if lower_code(a.first()) > lower_code(b.first()) {
        false
    } else {
        lex_le_ci(a.drop_first(), b.drop_first())
    }
}

/// The order is total: of any two strings, one sorts no later than the
/// other.
pub proof fn lemma_lex_le_ci_total(a: Seq<char>, b: Seq<char>)
    ensures
        lex_le_ci(a, b) || lex_le_ci(b, a),
    decreases a.len(),
{
    if a.len() > 0 && b.len() > 0 && lower_code(a.first()) == lower_code(b.first()) {
        lemma_lex_le_ci_total(a.drop_first(), b.drop_first());
    }
}

/// The order is transitive.
pub proof fn lemma_lex_le_ci_trans(a: Seq<char>, b: Seq<char>, c: Seq<char>)
    requires
        lex_le_ci(a, b),
        lex_le_ci(b, c),
    ensures
        lex_le_ci(a, c),
    decreases a.len(),
{
    if a.len() > 0 && b.len() > 0 && c.len() > 0 && lower_code(a.first()) == lower_code(b.first())
        && lower_code(b.first()) == lower_code(c.first()) {
        lemma_lex_le_ci_trans(a.drop_first(), b.drop_first(), c.drop_first());
    }
}

/// The sort code of a character, executable form.
fn lower_code_of(c: char) -> (r: u32)
    ensures
        r as int == lower_code(c),
{
    let x = c as u32;
    if 65 <= x && x <= 90 {
        x + 32
    } else {
        x
    }
}

/// Whether `a` sorts no later than `b`, ignoring ASCII case.
pub fn le_ignore_case(a: &str, b: &str) -> (r: bool)
    ensures
        r == lex_le_ci(a@, b@),
{
    let na = a.unicode_len();
    let nb = b.unicode_len();
    let mut i: usize = 0;
    proof {
        assert(a@.skip(0) =~= a@);
        assert(b@.skip(0) =~= b@);
    }
    while i < na && i < nb
        invariant
            i <= na,
            i <= nb,
            na == a@.len(),
            nb == b@.len(),
            lex_le_ci(a@, b@) == lex_le_ci(a@.skip(i as int), b@.skip(i as int)),
        decreases na - i,
    {
        let ka = lower_code_of(a.get_char(i));
        let kb = lower_code_of(b.get_char(i));
        proof {
            assert(a@.skip(i as int).first() == a@[i as int]);
            assert(b@.skip(i as int).first() == b@[i as int]);
            assert(a@.skip(i as int).drop_first() =~= a@.skip(i as int + 1));
            assert(b@.skip(i as int).drop_first() =~= b@.skip(i as int + 1));
        }
        if ka < kb {
            return true;
        }
        if ka > kb {
            return false;
        }
        i = i + 1;
    }
    proof {
        if i >= na {
            assert(a@.skip(i as int).len() == 0);
        } else {
            assert(b@.skip(i as int).len() == 0);
            assert(a@.skip(i as int).len() > 0);
        }
    }
    i >= na
}

/// The pieces joined with `", "` between them.
pub open spec fn spec_join_comma(pieces: Seq<Seq<char>>) -> Seq<char>
    decreases pieces.len(),
{
    if pieces.len() == 0 {
        Seq::empty()
    } else if pieces.len() == 1 {
        pieces[0]
    } else {
        pieces[0] + ", "@ + spec_join_comma(pieces.drop_first())
    }
}

/// How a join grows when one piece is appended at the end.
proof fn lemma_join_comma_push(pieces: Seq<Seq<char>>, x: Seq<char>)
    ensures
        spec_join_comma(pieces.push(x)) == if pieces.len() == 0 {
            x
        } else {
            spec_join_comma(pieces) + ", "@ + x
        },
    decreases pieces.len(),
{
    if pieces.len() == 0 {
        assert(pieces.push(x) =~~= seq![x]);
        assert(spec_join_comma(pieces.push(x)) == x);
    } else {
        assert(pieces.push(x).drop_first() =~~= pieces.drop_first().push(x));
        lemma_join_comma_push(pieces.drop_first(), x);
        if pieces.len() == 1 {
            assert(spec_join_comma(pieces.push(x)) =~~= spec_join_comma(pieces) + ", "@ + x);
        } else {
            assert(spec_join_comma(pieces.push(x)) =~~= spec_join_comma(pieces) + ", "@ + x);
        }
    }
}

/// Joins the names with `", "` between them.
pub fn join_comma(pieces: &Vec<String>) -> (r: String)
    ensures
        r@ == spec_join_comma(pieces.deep_view()),
{
    let n = pieces.len();
    let mut out = String::new();
    let mut i: usize = 0;
    proof {
        assert(pieces.deep_view().take(0) =~~= Seq::<Seq<char>>::empty());
    }
    while i < n
        invariant
            i <= n,
            n == pieces@.len(),
            out@ == spec_join_comma(pieces.deep_view().take(i as int)),
        decreases n - i,
    {
        if i > 0 {
            out.append(", ");
        }
        out.append(pieces[i].as_str());
        proof {
            assert(pieces.deep_view().take(i as int + 1) =~~= pieces.deep_view().take(
                i as int,
            ).push(pieces.deep_view()[i as int]));
            lemma_join_comma_push(pieces.deep_view().take(i as int), pieces.deep_view()[i as int]);
        }
        i = i + 1;
    }
    proof {
        assert(pieces.deep_view().take(n as int) =~~= pieces.deep_view());
    }
    out
}

} // verus!
