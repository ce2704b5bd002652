use vstd::prelude::*;

verus! {

/// The texts of the successive, non-overlapping matches of
/// `([%]+\{)|("[%]+m)` in a text, leftmost first.
pub uninterp spec fn marker_matches(text: Seq<char>) -> Seq<Seq<char>>;

/// Relies on `regex::Regex::find_iter`: the matched texts of the pattern
/// `([%]+\{)|("[%]+m)` in `text`, in order.
#[verifier::external_body]
fn find_marker_matches(text: &str) -> (r: Vec<String>)
    ensures
        r@.map_values(|m: String| m@) == marker_matches(text@),
{
    let reg = regex::Regex::new(r#"([%]+\{)|("[%]+m)"#).unwrap();
    reg.find_iter(text).map(|m| m.as_str().to_string()).collect()
}

/// How many marker characters a delimiter needs so as to differ from one
/// match: a `%..%{` run counts whole (its `{` stands for the extra `%`), a
/// `"%..%m` run without its quote.
pub open spec fn marker_need(m: Seq<char>) -> int {
    if m.len() > 0 && m.last() == '{' {
        m.len() as int
    } else {
        m.len() - 1
    }
}

/// The largest need over a sequence of matches, 0 for none.
pub open spec fn max_marker_need(ms: Seq<Seq<char>>) -> nat
    decreases ms.len(),
{
    if ms.len() == 0 {
        0
    } else {
        let rest = max_marker_need(ms.drop_last());
        let d = marker_need(ms.last());
        if d > rest {
            d as nat
        } else {
            rest
        }
    }
}

/// The fewest marker characters needed to delimit a text whose marker
/// matches are `matches`.
pub fn marker_len_of_matches(matches: &Vec<String>) -> (r: usize)
    ensures
        r == max_marker_need(matches@.map_values(|m: String| m@)),
{
    let ghost ms = matches@.map_values(|m: String| m@);
    let mut nb: usize = 0;
    let mut i: usize = 0;
    while i < matches.len()
        invariant
            i <= matches@.len(),
            ms == matches@.map_values(|m: String| m@),
            nb == max_marker_need(ms.take(i as int)),
        decreases matches@.len() - i,
    {
        let m = &matches[i];
        let len = m.unicode_len();
        let d: usize = if len > 0 && m.get_char(len - 1) == '{' {
            len
        } else if len > 0 {
            len - 1
        } else {
            0
        };
        proof {
            assert(ms.take(i + 1).drop_last() =~= ms.take(i as int));
            assert(ms.take(i + 1).last() == m@);
        }
        if d > nb {
            nb = d;
        }
        i = i + 1;
    }
    proof {
        assert(ms.take(matches@.len() as int) =~= ms);
    }
    nb
}

/// The fewest `%` signs an interpolation delimiter needs so that it cannot
/// be confused with any sequence of `text`.
pub fn min_interpolate_sign(text: &str) -> (r: usize)
    ensures
        r == max_marker_need(marker_matches(text@)),
{
    let matches = find_marker_matches(text);
    marker_len_of_matches(&matches)
}

/// The escaped form of the character at `i` of `s`.
pub open spec fn escape_at(s: Seq<char>, i: int) -> Seq<char> {
    if s[i] == '\\' {
        seq!['\\', '\\']
    } else if s[i] == '"' {
        seq!['\\', '"']
    } else if s[i] == '%' && i + 1 < s.len() && s[i + 1] == '{' {
        seq!['\\', '%']
    } else {
        seq![s[i]]
    }
}

/// The escaped form of the first `n` characters of `s`.
pub open spec fn escape_prefix(s: Seq<char>, n: int) -> Seq<char>
    decreases n,
{
    if n <= 0 {
        seq![]
    } else {
        escape_prefix(s, n - 1) + escape_at(s, n - 1)
    }
}

/// `s` as the content of a quoted literal: each backslash doubled, each
/// double quote and each `%{` preceded by a backslash.
pub open spec fn escape(s: Seq<char>) -> Seq<char> {
    escape_prefix(s, s.len() as int)
}

/// `s` escaped for a single-line string literal.
pub fn escape_text(s: &str) -> (r: String)
    ensures
        r@ == escape(s@),
{
    let mut out = String::new();
    let n = s.unicode_len();
    let mut i: usize = 0;
    while i < n
        invariant
            n == s@.len(),
            i <= n,
            out@ == escape_prefix(s@, i as int),
        decreases n - i,
    {
        let c = s.get_char(i);
        if c == '\\' {
            out.append("\\\\");
            proof { reveal_strlit("\\\\"); }
            assert("\\\\"@ =~= escape_at(s@, i as int));
        } else if c == '"' {
            out.append("\\\"");
            proof { reveal_strlit("\\\""); }
            assert("\\\""@ =~= escape_at(s@, i as int));
        } else if c == '%' && i + 1 < n && s.get_char(i + 1) == '{' {
            out.append("\\%");
            proof { reveal_strlit("\\%"); }
            assert("\\%"@ =~= escape_at(s@, i as int));
        } else {
            let piece = s.substring_char(i, i + 1);
            out.append(piece);
            assert(piece@ =~= escape_at(s@, i as int));
        }
        i = i + 1;
    }
    out
}

/// The content of a quoted literal read back, left to right: `\\` stands
/// for a backslash, `\"` for a double quote and `\%` before `{` for `%`;
/// any other character stands for itself.
pub open spec fn unescape(u: Seq<char>) -> Seq<char>
    decreases u.len(),
{
    if u.len() == 0 {
        seq![]
    } else if u.len() >= 2 && u[0] == '\\' && (u[1] == '\\' || u[1] == '"') {
        seq![u[1]] + unescape(u.skip(2))
    } else if u.len() >= 3 && u[0] == '\\' && u[1] == '%' && u[2] == '{' {
        seq!['%'] + unescape(u.skip(2))
    } else {
        seq![u[0]] + unescape(u.skip(1))
    }
}

proof fn lemma_escape_prefix_first(s: Seq<char>, n: int)
    requires
        1 <= n <= s.len(),
    ensures
        escape_prefix(s, n) == escape_at(s, 0) + escape_prefix(s.drop_first(), n - 1),
    decreases n,
{
    if n > 1 {
        lemma_escape_prefix_first(s, n - 1);
        assert(escape_at(s, n - 1) == escape_at(s.drop_first(), n - 2));
        assert(escape_prefix(s, n) =~= escape_at(s, 0) + escape_prefix(s.drop_first(), n - 1));
    } else {
        assert(escape_prefix(s.drop_first(), 0) =~= seq![]);
        assert(escape_prefix(s, 0) =~= seq![]);
        assert(escape_prefix(s, 1) =~= escape_at(s, 0));
    }
}

/// Reading back an escaped text gives the text: a quoted literal whose
/// content is `escape(s)` stands for exactly `s`.
pub proof fn lemma_unescape_escape(s: Seq<char>)
    ensures
        unescape(escape(s)) == s,
    decreases s.len(),
{
    if s.len() == 0 {
        assert(escape(s) =~= seq![]);
        assert(unescape(escape(s)) =~= s);
    } else {
        let rest = s.drop_first();
        lemma_escape_prefix_first(s, s.len() as int);
        lemma_unescape_escape(rest);
        let head = escape_at(s, 0);
        let u = escape(s);
        assert(u == head + escape(rest));
        if s[0] == '\\' || s[0] == '"' {
            assert(u.skip(2) =~= escape(rest));
        } else if s[0] == '%' && 1 < s.len() && s[1] == '{' {
            assert(u.skip(2) =~= escape(rest));
            lemma_escape_prefix_first(rest, rest.len() as int);
            assert(escape_at(rest, 0) == seq!['{']);
            assert(u[2] == '{');
        } else {
            assert(u.skip(1) =~= escape(rest));
        }
        assert(unescape(u) =~= s);
    }
}

} // verus!
