//! Character-level helpers on strings: trimming, splitting, ASCII case folding
//! and substring search, each with a specification over `Seq<char>`.

use vstd::prelude::*;
use vstd::string::*;

verus! {

/// Rust's `char::is_whitespace`: the Unicode `White_Space` property.
pub open spec fn is_whitespace(c: char) -> bool {
    ||| c == '\t' || c == '\n' || c == '\u{0B}' || c == '\u{0C}' || c == '\r' || c == ' '
    ||| c == '\u{85}' || c == '\u{A0}' || c == '\u{1680}'
    ||| ('\u{2000}' <= c && c <= '\u{200A}')
    ||| c == '\u{2028}' || c == '\u{2029}' || c == '\u{202F}' || c == '\u{205F}' || c == '\u{3000}'
}

/// `str::trim_start`.
pub open spec fn trim_start_spec(s: Seq<char>) -> Seq<char>
    decreases s.len(),
{
    if s.len() > 0 && is_whitespace(s[0]) {
        trim_start_spec(s.drop_first())
    } else {
        s
    }
}

/// `str::trim_end`.
pub open spec fn trim_end_spec(s: Seq<char>) -> Seq<char>
    decreases s.len(),
{
    if s.len() > 0 && is_whitespace(s.last()) {
        trim_end_spec(s.drop_last())
    } else {
        s
    }
}

/// `str::trim`: both ends stripped of whitespace.
pub open spec fn trim_spec(s: Seq<char>) -> Seq<char> {
    trim_end_spec(trim_start_spec(s))
}

/// What `trim_start` leaves does not start with whitespace.
proof fn lemma_trim_start_first(s: Seq<char>)
    ensures
        trim_start_spec(s).len() > 0 ==> !is_whitespace(trim_start_spec(s)[0]),
    decreases s.len(),
{
    if s.len() > 0 && is_whitespace(s[0]) {
        lemma_trim_start_first(s.drop_first());
    }
}

/// What `trim_end` leaves is a prefix of the text that does not end with whitespace.
proof fn lemma_trim_end_prefix(s: Seq<char>)
    ensures
        trim_end_spec(s).len() <= s.len(),
        forall|i: int| 0 <= i < trim_end_spec(s).len() ==> #[trigger] trim_end_spec(s)[i] == s[i],
        trim_end_spec(s).len() > 0 ==> !is_whitespace(trim_end_spec(s).last()),
    decreases s.len(),
{
    if s.len() > 0 && is_whitespace(s.last()) {
        lemma_trim_end_prefix(s.drop_last());
    }
}

/// Trimmed text that is not empty neither starts nor ends with whitespace.
pub proof fn lemma_trim_ends(s: Seq<char>)
    ensures
        trim_spec(s).len() > 0 ==> !is_whitespace(trim_spec(s)[0]) && !is_whitespace(
            trim_spec(s).last(),
        ),
{
    lemma_trim_start_first(s);
    lemma_trim_end_prefix(trim_start_spec(s));
}

/// `str::split(sep)`, defined one character at a time: a separator opens a new
/// (empty) piece, any other character extends the last piece.
pub open spec fn split_spec(s: Seq<char>, sep: char) -> Seq<Seq<char>>
    decreases s.len(),
{
    if s.len() == 0 {
        seq![Seq::<char>::empty()]
    } else {
        let prev = split_spec(s.drop_last(), sep);
        if s.last() == sep {
            prev.push(Seq::<char>::empty())
        } else {
            prev.update(prev.len() - 1, prev.last().push(s.last()))
        }
    }
}

/// Splitting yields at least one piece.
pub proof fn lemma_split_nonempty(s: Seq<char>, sep: char)
    ensures
        split_spec(s, sep).len() >= 1,
    decreases s.len(),
{
    if s.len() > 0 {
        lemma_split_nonempty(s.drop_last(), sep);
    }
}

/// No piece of a split holds the separator.
pub proof fn lemma_split_pieces_free(s: Seq<char>, sep: char)
    ensures
        forall|i: int, j: int|
            0 <= i < split_spec(s, sep).len() && 0 <= j < split_spec(s, sep)[i].len()
                ==> #[trigger] split_spec(s, sep)[i][j] != sep,
    decreases s.len(),
{
    if s.len() > 0 {
        lemma_split_pieces_free(s.drop_last(), sep);
        lemma_split_nonempty(s.drop_last(), sep);
        let prev = split_spec(s.drop_last(), sep);
        let cur = split_spec(s, sep);
        if s.last() != sep {
            assert forall|i: int, j: int| 0 <= i < cur.len() && 0 <= j < cur[i].len() implies #[trigger] cur[i][j]
                != sep by {
                if i == prev.len() - 1 {
                    if j < prev.last().len() {
                        assert(cur[i][j] == prev[i][j]);
                    }
                } else {
                    assert(cur[i] == prev[i]);
                }
            }
        } else {
            assert forall|i: int, j: int| 0 <= i < cur.len() && 0 <= j < cur[i].len() implies #[trigger] cur[i][j]
                != sep by {
                assert(cur[i] == prev[i]);
            }
        }
    }
}

/// Joining the pieces of a split with the separator gives back the text.
pub proof fn lemma_split_join(s: Seq<char>, sep: char)
    ensures
        join_spec(split_spec(s, sep), seq![sep]) == s,
    decreases s.len(),
{
    if s.len() == 0 {
        assert(split_spec(s, sep) =~= seq![Seq::<char>::empty()]);
    } else {
        let t = s.drop_last();
        lemma_split_join(t, sep);
        lemma_split_nonempty(t, sep);
        let prev = split_spec(t, sep);
        let cur = split_spec(s, sep);
        if s.last() == sep {
            assert(cur.drop_last() =~= prev);
            assert(join_spec(cur, seq![sep]) =~= t + seq![sep] + Seq::<char>::empty());
            assert(t + seq![sep] + Seq::<char>::empty() =~= s);
        } else {
            if prev.len() == 1 {
                assert(cur.len() == 1);
                assert(cur[0] =~= prev[0].push(s.last()));
                assert(s =~= t.push(s.last()));
            } else {
                assert(cur.drop_last() =~= prev.drop_last());
                assert(cur.last() =~= prev.last().push(s.last()));
                assert(join_spec(cur, seq![sep]) =~= join_spec(prev.drop_last(), seq![sep])
                    + seq![sep] + prev.last().push(s.last()));
                assert(join_spec(prev, seq![sep]) =~= join_spec(prev.drop_last(), seq![sep])
                    + seq![sep] + prev.last());
                assert(s =~= t.push(s.last()));
            }
        }
    }
}

/// The character views of a sequence of strings.
pub open spec fn strings_view(v: Seq<String>) -> Seq<Seq<char>> {
    v.map_values(|x: String| x@)
}

/// The parts separated by `sep`, as `[&str]::join` puts them together.
pub open spec fn join_spec(parts: Seq<Seq<char>>, sep: Seq<char>) -> Seq<char>
    decreases parts.len(),
{
    if parts.len() == 0 {
        Seq::empty()
    } else if parts.len() == 1 {
        parts[0]
    } else {
        join_spec(parts.drop_last(), sep) + sep + parts.last()
    }
}

/// Every part occurs in the joined text.
pub proof fn lemma_join_contains(parts: Seq<Seq<char>>, sep: Seq<char>)
    ensures
        forall|i: int| 0 <= i < parts.len() ==> contains_spec(join_spec(parts, sep), #[trigger] parts[i]),
    decreases parts.len(),
{
    if parts.len() == 1 {
        assert(occurs_at(join_spec(parts, sep), parts[0], 0)) by {
            assert(join_spec(parts, sep).subrange(0, parts[0].len() as int) =~= parts[0]);
        }
    } else if parts.len() > 1 {
        let init = parts.drop_last();
        lemma_join_contains(init, sep);
        let j = join_spec(init, sep);
        let whole = join_spec(parts, sep);
        assert(whole == j + sep + parts.last());
        assert forall|i: int| 0 <= i < parts.len() implies contains_spec(whole, #[trigger] parts[i]) by {
            if i < parts.len() - 1 {
                assert(init[i] == parts[i]);
                assert(contains_spec(j, init[i]));
                let k = choose|k: int| occurs_at(j, init[i], k);
                assert(whole.subrange(k, k + parts[i].len()) =~= j.subrange(k, k + parts[i].len()));
                assert(occurs_at(whole, parts[i], k));
            } else {
                let k: int = (j.len() + sep.len()) as int;
                assert(whole.subrange(k, k + parts[i].len()) =~= parts.last());
                assert(occurs_at(whole, parts[i], k));
            }
        }
    }
}

/// `parts.join(sep)`.
pub fn join(parts: &Vec<String>, sep: &str) -> (r: String)
    ensures
        r@ == join_spec(strings_view(parts@), sep@),
{
    let mut buf = String::new();
    let mut i: usize = 0;
    while i < parts.len()
        invariant
            i <= parts@.len(),
            buf@ == join_spec(strings_view(parts@).take(i as int), sep@),
        decreases parts@.len() - i,
    {
        let ghost before = strings_view(parts@).take(i as int);
        let ghost after = strings_view(parts@).take(i + 1);
        assert(after.drop_last() =~= before);
        assert(after.last() == parts@[i as int]@);
        if i > 0 {
            buf.append(sep);
        } else {
            assert(buf@ =~= Seq::<char>::empty());
        }
        buf.append(parts[i].as_str());
        i = i + 1;
    }
    assert(strings_view(parts@).take(parts@.len() as int) =~= strings_view(parts@));
    buf
}

/// `s.split_once(c)`: the text before the first `c` and the text after it.
pub open spec fn split_once_spec(s: Seq<char>, c: char) -> Option<(Seq<char>, Seq<char>)>
    decreases s.len(),
{
    if s.len() == 0 {
        None
    } else if s[0] == c {
        Some((Seq::empty(), s.drop_first()))
    } else {
        match split_once_spec(s.drop_first(), c) {
            Some((a, b)) => Some((seq![s[0]] + a, b)),
            None => None,
        }
    }
}

proof fn lemma_split_once_at(s: Seq<char>, c: char, i: int)
    requires
        0 <= i <= s.len(),
        forall|k: int| 0 <= k < i ==> s[k] != c,
    ensures
        i < s.len() && s[i] == c ==> split_once_spec(s, c) == Some(
            (s.subrange(0, i), s.subrange(i + 1, s.len() as int)),
        ),
        i == s.len() ==> split_once_spec(s, c) is None,
    decreases i,
{
    if i > 0 {
        let t = s.drop_first();
        assert forall|k: int| 0 <= k < i - 1 implies t[k] != c by {
            assert(t[k] == s[k + 1]);
        }
        lemma_split_once_at(t, c, i - 1);
        if i < s.len() && s[i] == c {
            assert(t[i - 1] == c);
            assert(seq![s[0]] + t.subrange(0, i - 1) =~= s.subrange(0, i));
            assert(t.subrange(i, t.len() as int) =~= s.subrange(i + 1, s.len() as int));
        }
    } else {
        if s.len() > 0 && s[0] == c {
            assert(s.subrange(0, 0) =~= Seq::<char>::empty());
            assert(s.subrange(1, s.len() as int) =~= s.drop_first());
        }
    }
}

/// `s.split_once(c)`, owned.
pub fn split_once(s: &str, c: char) -> (r: Option<(String, String)>)
    ensures
        match r {
            Some((a, b)) => split_once_spec(s@, c) == Some((a@, b@)),
            None => split_once_spec(s@, c) is None,
        },
{
    let n = s.unicode_len();
    let mut i: usize = 0;
    while i < n
        invariant
            n == s@.len(),
            i <= n,
            forall|k: int| 0 <= k < i ==> s@[k] != c,
        decreases n - i,
    {
        if s.get_char(i) == c {
            proof {
                lemma_split_once_at(s@, c, i as int);
            }
            let a = s.substring_char(0, i).to_owned();
            let b = s.substring_char(i + 1, n).to_owned();
            return Some((a, b));
        }
        i = i + 1;
    }
    proof {
        lemma_split_once_at(s@, c, n as int);
    }
    None
}

/// `char::to_string`: the one-character string.
#[verifier::external_body]
pub(crate) fn char_string(c: char) -> (r: String)
    ensures
        r@ == seq![c],
{
    c.to_string()
}

/// ASCII lowercase of a character, as a code point.
pub open spec fn lower_code(c: char) -> u32 {
    if 'A' <= c && c <= 'Z' {
        (c as u32 + 32) as u32
    } else {
        c as u32
    }
}

/// `str::eq_ignore_ascii_case`.
pub open spec fn eq_ignore_ascii_case_spec(a: Seq<char>, b: Seq<char>) -> bool {
    &&& a.len() == b.len()
    &&& forall|i: int| 0 <= i < a.len() ==> #[trigger] lower_code(a[i]) == lower_code(b[i])
}

/// `s.starts_with(p)`.
pub open spec fn starts_with_spec(s: Seq<char>, p: Seq<char>) -> bool {
    p.len() <= s.len() && s.subrange(0, p.len() as int) == p
}

/// `needle` occurs in `hay` at position `i`, comparing ASCII-case-insensitively.
pub open spec fn occurs_ci_at(hay: Seq<char>, needle: Seq<char>, i: int) -> bool {
    &&& 0 <= i
    &&& i + needle.len() <= hay.len()
    &&& forall|k: int| 0 <= k < needle.len() ==> #[trigger] lower_code(hay[i + k]) == lower_code(needle[k])
}

/// `hay.to_ascii_lowercase().contains(needle.to_ascii_lowercase())`.
pub open spec fn contains_ci_spec(hay: Seq<char>, needle: Seq<char>) -> bool {
    exists|i: int| occurs_ci_at(hay, needle, i)
}

/// `needle` occurs in `hay` at position `i`.
pub open spec fn occurs_at(hay: Seq<char>, needle: Seq<char>, i: int) -> bool {
    &&& 0 <= i
    &&& i + needle.len() <= hay.len()
    &&& hay.subrange(i, i + needle.len()) == needle
}

/// `hay.contains(needle)`.
pub open spec fn contains_spec(hay: Seq<char>, needle: Seq<char>) -> bool {
    exists|i: int| occurs_at(hay, needle, i)
}

/// `s.replace("\r\n", "\n")`: every CR LF pair, scanned left to right, becomes LF.
pub open spec fn replace_crlf_spec(s: Seq<char>) -> Seq<char>
    decreases s.len(),
{
    if s.len() == 0 {
        s
    } else if s.len() >= 2 && s[0] == '\r' && s[1] == '\n' {
        seq!['\n'] + replace_crlf_spec(s.subrange(2, s.len() as int))
    } else {
        seq![s[0]] + replace_crlf_spec(s.drop_first())
    }
}

/// `s.replace('\r', "\n")`.
pub open spec fn replace_cr_spec(s: Seq<char>) -> Seq<char> {
    s.map_values(|c: char| if c == '\r' { '\n' } else { c })
}

/// Newline normalization: CR LF and lone CR both become LF.
pub open spec fn normalize_newlines_spec(s: Seq<char>) -> Seq<char> {
    replace_cr_spec(replace_crlf_spec(s))
}

/// `s` without its NUL characters.
pub open spec fn without_nul_spec(s: Seq<char>) -> Seq<char> {
    s.filter(|c: char| c != '\0')
}

/// `s.split(['\n', '\r']).next()`: the text before the first line break.
pub open spec fn first_line_spec(s: Seq<char>) -> Seq<char>
    decreases s.len(),
{
    if s.len() == 0 || s[0] == '\n' || s[0] == '\r' {
        Seq::empty()
    } else {
        seq![s[0]] + first_line_spec(s.drop_first())
    }
}

/// The character of a decimal digit.
pub open spec fn digit_char(d: nat) -> char {
    if d == 0 { '0' }
    else if d == 1 { '1' }
    else if d == 2 { '2' }
    else if d == 3 { '3' }
    else if d == 4 { '4' }
    else if d == 5 { '5' }
    else if d == 6 { '6' }
    else if d == 7 { '7' }
    else if d == 8 { '8' }
    else { '9' }
}

/// The decimal representation of `n`, without leading zeros.
pub open spec fn decimal_spec(n: nat) -> Seq<char>
    decreases n,
{
    if n < 10 {
        seq![digit_char(n)]
    } else {
        decimal_spec(n / 10).push(digit_char(n % 10))
    }
}

/// Removes leading and trailing whitespace, as `str::trim` does.
pub fn trim(s: &str) -> (r: String)
    ensures
        r@ == trim_spec(s@),
{
    let n = s.unicode_len();
    let mut i: usize = 0;
    assert(s@.subrange(0, n as int) =~= s@);
    while i < n && is_whitespace_char(s.get_char(i))
        invariant
            n == s@.len(),
            i <= n,
            trim_start_spec(s@) == trim_start_spec(s@.subrange(i as int, n as int)),
        decreases n - i,
    {
        assert(s@.subrange(i as int, n as int).drop_first() =~= s@.subrange(i + 1, n as int));
        i = i + 1;
    }
    assert(trim_start_spec(s@.subrange(i as int, n as int)) == s@.subrange(i as int, n as int));
    let mut j: usize = n;
    while j > i && is_whitespace_char(s.get_char(j - 1))
        invariant
            n == s@.len(),
            i <= j <= n,
            trim_start_spec(s@) == s@.subrange(i as int, n as int),
            trim_end_spec(s@.subrange(i as int, n as int)) == trim_end_spec(
                s@.subrange(i as int, j as int),
            ),
        decreases j - i,
    {
        assert(s@.subrange(i as int, j as int).drop_last() =~= s@.subrange(i as int, j - 1));
        j = j - 1;
    }
    assert(trim_end_spec(s@.subrange(i as int, j as int)) == s@.subrange(i as int, j as int));
    s.substring_char(i, j).to_owned()
}

/// Decides `is_whitespace` for one character.
pub fn is_whitespace_char(c: char) -> (b: bool)
    ensures
        b == is_whitespace(c),
{
    c == '\t' || c == '\n' || c == '\u{0B}' || c == '\u{0C}' || c == '\r' || c == ' ' || c
        == '\u{85}' || c == '\u{A0}' || c == '\u{1680}' || ('\u{2000}' <= c && c <= '\u{200A}')
        || c == '\u{2028}' || c == '\u{2029}' || c == '\u{202F}' || c == '\u{205F}' || c
        == '\u{3000}'
}

/// Splits `s` at every occurrence of `sep`, as `str::split` does.
pub fn split(s: &str, sep: char) -> (v: Vec<String>)
    ensures
        strings_view(v@) == split_spec(s@, sep),
{
    let n = s.unicode_len();
    let mut pieces: Vec<String> = Vec::new();
    let mut start: usize = 0;
    let mut i: usize = 0;
    assert(s@.subrange(0, 0) =~= Seq::<char>::empty());
    assert(strings_view(pieces@).push(s@.subrange(0, 0)) =~= seq![Seq::<char>::empty()]);
    while i < n
        invariant
            n == s@.len(),
            start <= i <= n,
            split_spec(s@.subrange(0, i as int), sep) == strings_view(pieces@).push(
                s@.subrange(start as int, i as int),
            ),
        decreases n - i,
    {
        let c = s.get_char(i);
        let ghost prefix = s@.subrange(0, i + 1);
        assert(prefix.drop_last() =~= s@.subrange(0, i as int));
        assert(prefix.last() == c);
        if c == sep {
            let piece = s.substring_char(start, i).to_owned();
            let ghost before = pieces@;
            pieces.push(piece);
            assert(strings_view(pieces@) =~= strings_view(before).push(piece@));
            start = i + 1;
            i = i + 1;
            assert(s@.subrange(start as int, i as int) =~= Seq::<char>::empty());
        } else {
            assert(s@.subrange(start as int, i + 1) =~= s@.subrange(start as int, i as int).push(c));
            i = i + 1;
        }
    }
    assert(s@.subrange(0, n as int) =~= s@);
    let last = s.substring_char(start, n).to_owned();
    let ghost before = pieces@;
    pieces.push(last);
    assert(strings_view(pieces@) =~= strings_view(before).push(last@));
    assert(strings_view(pieces@) =~= split_spec(s@, sep));
    pieces
}

/// `s.replace("\r\n", "\n")`.
pub fn replace_crlf(s: &str) -> (r: String)
    ensures
        r@ == replace_crlf_spec(s@),
{
    let n = s.unicode_len();
    let mut out = String::new();
    let mut start: usize = 0;
    let mut i: usize = 0;
    proof {
        assert(s@.subrange(0, n as int) =~= s@);
    }
    while i < n
        invariant
            n == s@.len(),
            start <= i <= n,
            out@ + s@.subrange(start as int, i as int) + replace_crlf_spec(
                s@.subrange(i as int, n as int),
            ) == replace_crlf_spec(s@),
        decreases n - i,
    {
        let ghost rest = s@.subrange(i as int, n as int);
        if i + 1 < n && s.get_char(i) == '\r' && s.get_char(i + 1) == '\n' {
            let piece = s.substring_char(start, i);
            out.append(piece);
            out.append("\n");
            proof {
                reveal_strlit("\n");
                assert(rest.subrange(2, rest.len() as int) =~= s@.subrange(i + 2, n as int));
                assert(s@.subrange(i + 2, i + 2) =~= Seq::<char>::empty());
            }
            i = i + 2;
            start = i;
            proof {
                let ghost old_out = out@;
                assert(out@ + s@.subrange(start as int, i as int) =~= out@);
            }
        } else {
            proof {
                assert(rest.drop_first() =~= s@.subrange(i + 1, n as int));
                assert(s@.subrange(start as int, i + 1) =~= s@.subrange(start as int, i as int)
                    + seq![rest[0]]);
            }
            i = i + 1;
        }
    }
    let piece = s.substring_char(start, n);
    out.append(piece);
    proof {
        assert(s@.subrange(n as int, n as int) =~= Seq::<char>::empty());
    }
    out
}

/// `s.replace('\r', "\n")`.
pub fn replace_cr(s: &str) -> (r: String)
    ensures
        r@ == replace_cr_spec(s@),
{
    let n = s.unicode_len();
    let mut out = String::new();
    let mut start: usize = 0;
    let mut i: usize = 0;
    while i < n
        invariant
            n == s@.len(),
            start <= i <= n,
            out@ + s@.subrange(start as int, i as int) == replace_cr_spec(s@.subrange(0, i as int)),
        decreases n - i,
    {
        let c = s.get_char(i);
        if c == '\r' {
            let piece = s.substring_char(start, i);
            out.append(piece);
            out.append("\n");
            proof {
                reveal_strlit("\n");
            }
            start = i + 1;
        }
        i = i + 1;
        proof {
            assert(replace_cr_spec(s@.subrange(0, i as int)) =~= replace_cr_spec(
                s@.subrange(0, i - 1),
            ).push(if c == '\r' { '\n' } else { c }));
            assert(s@.subrange(start as int, i as int) =~= (if c == '\r' {
                Seq::<char>::empty()
            } else {
                s@.subrange(start as int, i - 1).push(c)
            }));
        }
    }
    let piece = s.substring_char(start, n);
    out.append(piece);
    proof {
        assert(s@.subrange(0, n as int) =~= s@);
    }
    out
}

/// Normalizes line breaks: `s.replace("\r\n", "\n").replace('\r', "\n")`.
pub fn normalize_newlines(s: &str) -> (r: String)
    ensures
        r@ == normalize_newlines_spec(s@),
{
    let a = replace_crlf(s);
    replace_cr(a.as_str())
}

/// `s` with every NUL character removed.
pub fn without_nul(s: &str) -> (r: String)
    ensures
        r@ == without_nul_spec(s@),
{
    let n = s.unicode_len();
    let mut out = String::new();
    let mut start: usize = 0;
    let mut i: usize = 0;
    proof {
        assert(s@.subrange(0, 0) =~= Seq::<char>::empty());
        assert(Seq::<char>::empty().filter(|c: char| c != '\0') =~= Seq::<char>::empty());
    }
    while i < n
        invariant
            n == s@.len(),
            start <= i <= n,
            out@ + s@.subrange(start as int, i as int) == without_nul_spec(s@.subrange(0, i as int)),
        decreases n - i,
    {
        let c = s.get_char(i);
        proof {
            assert(s@.subrange(0, i + 1) =~= s@.subrange(0, i as int).push(c));
            s@.subrange(0, i as int).lemma_filter_push(c, |c: char| c != '\0');
        }
        if c == '\0' {
            let piece = s.substring_char(start, i);
            out.append(piece);
            start = i + 1;
            proof {
                assert(s@.subrange(start as int, i + 1) =~= Seq::<char>::empty());
            }
        } else {
            proof {
                assert(s@.subrange(start as int, i + 1) =~= s@.subrange(start as int, i as int).push(c));
            }
        }
        i = i + 1;
    }
    let piece = s.substring_char(start, n);
    out.append(piece);
    proof {
        assert(s@.subrange(0, n as int) =~= s@);
    }
    out
}

/// The text before the first `\n` or `\r`.
pub fn first_line(s: &str) -> (r: String)
    ensures
        r@ == first_line_spec(s@),
{
    let n = s.unicode_len();
    let mut i: usize = 0;
    proof {
        assert(s@.subrange(0, n as int) =~= s@);
        assert(s@.subrange(0, 0) + s@ =~= s@);
    }
    while i < n && s.get_char(i) != '\n' && s.get_char(i) != '\r'
        invariant
            n == s@.len(),
            i <= n,
            first_line_spec(s@) == s@.subrange(0, i as int) + first_line_spec(
                s@.subrange(i as int, n as int),
            ),
        decreases n - i,
    {
        proof {
            let rest = s@.subrange(i as int, n as int);
            assert(rest.drop_first() =~= s@.subrange(i + 1, n as int));
            assert(s@.subrange(0, i + 1) =~= s@.subrange(0, i as int) + seq![rest[0]]);
        }
        i = i + 1;
    }
    proof {
        assert(s@.subrange(0, n as int) =~= s@);
        assert(s@.subrange(0, 0) =~= Seq::<char>::empty());
        assert(first_line_spec(s@.subrange(i as int, n as int)) =~= Seq::<char>::empty());
    }
    s.substring_char(0, i).to_owned()
}

/// The one-character string of a decimal digit.
fn digit_str(d: u64) -> (r: &'static str)
    requires
        d < 10,
    ensures
        r@ == seq![digit_char(d as nat)],
{
    proof {
        reveal_strlit("0");
        reveal_strlit("1");
        reveal_strlit("2");
        reveal_strlit("3");
        reveal_strlit("4");
        reveal_strlit("5");
        reveal_strlit("6");
        reveal_strlit("7");
        reveal_strlit("8");
        reveal_strlit("9");
    }
    if d == 0 { "0" }
    else if d == 1 { "1" }
    else if d == 2 { "2" }
    else if d == 3 { "3" }
    else if d == 4 { "4" }
    else if d == 5 { "5" }
    else if d == 6 { "6" }
    else if d == 7 { "7" }
    else if d == 8 { "8" }
    else { "9" }
}

/// The decimal representation of `n`.
pub fn decimal(n: u64) -> (r: String)
    ensures
        r@ == decimal_spec(n as nat),
    decreases n,
{
    if n < 10 {
        digit_str(n).to_owned()
    } else {
        let mut r = decimal(n / 10);
        r.append(digit_str(n % 10));
        r
    }
}

/// The decimal representation of a 128-bit `n`.
pub fn decimal_wide(n: u128) -> (r: String)
    ensures
        r@ == decimal_spec(n as nat),
    decreases n,
{
    if n < 10 {
        digit_str(n as u64).to_owned()
    } else {
        let mut r = decimal_wide(n / 10);
        r.append(digit_str((n % 10) as u64));
        r
    }
}

/// ASCII lowercase code point of a character.
pub fn lower_code_of(c: char) -> (r: u32)
    ensures
        r == lower_code(c),
{
    if 'A' <= c && c <= 'Z' {
        (c as u32) + 32
    } else {
        c as u32
    }
}

/// `a.eq_ignore_ascii_case(b)`.
pub fn eq_ignore_ascii_case(a: &str, b: &str) -> (r: bool)
    ensures
        r == eq_ignore_ascii_case_spec(a@, b@),
{
    let n = a.unicode_len();
    if n != b.unicode_len() {
        return false;
    }
    let mut i: usize = 0;
    while i < n
        invariant
            n == a@.len(),
            n == b@.len(),
            i <= n,
            forall|k: int| 0 <= k < i ==> #[trigger] lower_code(a@[k]) == lower_code(b@[k]),
        decreases n - i,
    {
        if lower_code_of(a.get_char(i)) != lower_code_of(b.get_char(i)) {
            return false;
        }
        i = i + 1;
    }
    true
}

/// `a == b` on string slices.
pub fn str_eq(a: &str, b: &str) -> (r: bool)
    ensures
        r == (a@ == b@),
{
    let n = a.unicode_len();
    if n != b.unicode_len() {
        return false;
    }
    let mut i: usize = 0;
    while i < n
        invariant
            n == a@.len(),
            n == b@.len(),
            i <= n,
            forall|k: int| 0 <= k < i ==> a@[k] == b@[k],
        decreases n - i,
    {
        if a.get_char(i) != b.get_char(i) {
            return false;
        }
        i = i + 1;
    }
    assert(a@ =~= b@);
    true
}

/// `s.starts_with(p)`.
pub fn starts_with(s: &str, p: &str) -> (r: bool)
    ensures
        r == starts_with_spec(s@, p@),
{
    let n = s.unicode_len();
    let m = p.unicode_len();
    if m > n {
        return false;
    }
    let mut i: usize = 0;
    while i < m
        invariant
            n == s@.len(),
            m == p@.len(),
            m <= n,
            i <= m,
            forall|k: int| 0 <= k < i ==> s@[k] == p@[k],
        decreases m - i,
    {
        if s.get_char(i) != p.get_char(i) {
            assert(s@.subrange(0, m as int)[i as int] != p@[i as int]);
            return false;
        }
        i = i + 1;
    }
    assert(s@.subrange(0, m as int) =~= p@);
    true
}

/// Whether `needle` occurs at `i` in `hay`, ignoring ASCII case.
fn occurs_ci_at_exec(hay: &str, needle: &str, i: usize) -> (r: bool)
    requires
        i + needle@.len() <= hay@.len(),
    ensures
        r == occurs_ci_at(hay@, needle@, i as int),
{
    let m = needle.unicode_len();
    let n = hay.unicode_len();
    let mut k: usize = 0;
    while k < m
        invariant
            m == needle@.len(),
            i + m <= hay@.len(),
            n == hay@.len(),
            k <= m,
            forall|j: int| 0 <= j < k ==> #[trigger] lower_code(hay@[i + j]) == lower_code(needle@[j]),
        decreases m - k,
    {
        if lower_code_of(hay.get_char(i + k)) != lower_code_of(needle.get_char(k)) {
            return false;
        }
        k = k + 1;
    }
    true
}

/// `hay.to_ascii_lowercase().contains(&needle.to_ascii_lowercase())`.
pub fn contains_ci(hay: &str, needle: &str) -> (r: bool)
    ensures
        r == contains_ci_spec(hay@, needle@),
{
    let n = hay.unicode_len();
    let m = needle.unicode_len();
    if m > n {
        return false;
    }
    let mut i: usize = 0;
    while i <= n - m
        invariant
            n == hay@.len(),
            m == needle@.len(),
            m <= n,
            i <= n - m,
            forall|j: int| 0 <= j < i ==> !#[trigger] occurs_ci_at(hay@, needle@, j),
        decreases n - m - i,
    {
        if occurs_ci_at_exec(hay, needle, i) {
            return true;
        }
        if i == n - m {
            assert forall|j: int| occurs_ci_at(hay@, needle@, j) implies false by {
                assert(j <= n - m);
            }
            return false;
        }
        i = i + 1;
    }
    false
}

/// Whether `needle` occurs at `i` in `hay`.
fn occurs_at_exec(hay: &str, needle: &str, i: usize) -> (r: bool)
    requires
        i + needle@.len() <= hay@.len(),
    ensures
        r == occurs_at(hay@, needle@, i as int),
{
    let m = needle.unicode_len();
    let n = hay.unicode_len();
    let mut k: usize = 0;
    while k < m
        invariant
            m == needle@.len(),
            i + m <= hay@.len(),
            n == hay@.len(),
            k <= m,
            forall|j: int| 0 <= j < k ==> hay@[i + j] == needle@[j],
        decreases m - k,
    {
        if hay.get_char(i + k) != needle.get_char(k) {
            assert(hay@.subrange(i as int, i + m)[k as int] != needle@[k as int]);
            return false;
        }
        k = k + 1;
    }
    assert(hay@.subrange(i as int, i + m) =~= needle@);
    true
}

/// `hay.contains(needle)`.
pub fn contains(hay: &str, needle: &str) -> (r: bool)
    ensures
        r == contains_spec(hay@, needle@),
{
    let n = hay.unicode_len();
    let m = needle.unicode_len();
    if m > n {
        return false;
    }
    let mut i: usize = 0;
    while i <= n - m
        invariant
            n == hay@.len(),
            m == needle@.len(),
            m <= n,
            i <= n - m,
            forall|j: int| 0 <= j < i ==> !#[trigger] occurs_at(hay@, needle@, j),
        decreases n - m - i,
    {
        if occurs_at_exec(hay, needle, i) {
            return true;
        }
        if i == n - m {
            assert forall|j: int| occurs_at(hay@, needle@, j) implies false by {
                assert(j <= n - m);
            }
            return false;
        }
        i = i + 1;
    }
    false
}

/// `s` begins with `p`, comparing ASCII-case-insensitively.
pub open spec fn starts_with_ci_spec(s: Seq<char>, p: Seq<char>) -> bool {
    occurs_ci_at(s, p, 0)
}

/// `s.to_ascii_lowercase().starts_with(&p.to_ascii_lowercase())`.
pub fn starts_with_ci(s: &str, p: &str) -> (r: bool)
    ensures
        r == starts_with_ci_spec(s@, p@),
{
    if p.unicode_len() > s.unicode_len() {
        return false;
    }
    occurs_ci_at_exec(s, p, 0)
}

} // verus!
