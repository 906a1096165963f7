//! Text helpers: decimal digits, HTML escaping and file-name slugs.
use vstd::prelude::*;

verus! {

/// Calls `String::push`: appends one character.
#[verifier::external_body]
pub(crate) fn push_char(s: &mut String, c: char)
    ensures
        final(s)@ == old(s)@.push(c),
{
    s.push(c);
}

/// Whether two texts are equal.
pub fn text_eq(a: &str, b: &str) -> (r: bool)
    ensures
        r == (a@ == b@),
{
    String::from_str(a) == String::from_str(b)
}

/// The decimal digit character for `d < 10`.
pub open spec fn digit_char(d: nat) -> char {
    (d + 48) as char
}

/// The decimal text of `n`, without leading zeros.
pub open spec fn dec_text(n: nat) -> Seq<char>
    decreases n,
{
    if n < 10 {
        seq![digit_char(n)]
    } else {
        dec_text(n / 10).push(digit_char(n % 10))
    }
}

/// The decimal digit character for `d < 10`.
pub(crate) fn digit(d: u128) -> (c: char)
    requires
        d < 10,
    ensures
        c == digit_char(d as nat),
{
    ((d as u8) + 48) as char
}

/// The decimal text of `n`, as `format!("{}", n)` writes it.
pub fn dec_string(n: u128) -> (s: String)
    ensures
        s@ == dec_text(n as nat),
    decreases n,
{
    if n < 10 {
        let mut s = String::new();
        push_char(&mut s, digit(n));
        assert(s@ =~= dec_text(n as nat));
        s
    } else {
        let mut s = dec_string(n / 10);
        push_char(&mut s, digit(n % 10));
        s
    }
}

/// The HTML text for one character: `&`, `<`, `>` and `"` become entities.
pub open spec fn escape_char(c: char) -> Seq<char> {
    if c == '&' {
        "&amp;"@
    } else if c == '<' {
        "&lt;"@
    } else if c == '>' {
        "&gt;"@
    } else if c == '"' {
        "&quot;"@
    } else {
        seq![c]
    }
}

/// `s` with every character escaped by `escape_char`.
pub open spec fn escape_text(s: Seq<char>) -> Seq<char>
    decreases s.len(),
{
    if s.len() == 0 {
        Seq::empty()
    } else {
        escape_text(s.drop_last()) + escape_char(s.last())
    }
}

/// Escapes `&`, `<`, `>` and `"` for use in HTML text and attribute values.
pub fn escape_html(s: &str) -> (r: String)
    ensures
        r@ == escape_text(s@),
{
    let mut r = String::new();
    let ghost cs = s@;
    for c in it: s.chars()
        invariant
            it.seq() == cs,
            cs == s@,
            r@ == escape_text(cs.take(it.index() as int)),
    {
        let ghost i = it.index();
        proof {
            assert(cs.take(i + 1).drop_last() =~= cs.take(i as int));
            assert(cs.take(i + 1).last() == c);
        }
        if c == '&' {
            r.append("&amp;");
        } else if c == '<' {
            r.append("&lt;");
        } else if c == '>' {
            r.append("&gt;");
        } else if c == '"' {
            r.append("&quot;");
        } else {
            push_char(&mut r, c);
        }
        proof {
            reveal_strlit("&amp;");
            reveal_strlit("&lt;");
            reveal_strlit("&gt;");
            reveal_strlit("&quot;");
        }
    }
    assert(cs.take(cs.len() as int) =~= cs);
    r
}

/// Characters kept in a slug: ASCII letters and digits.
pub open spec fn is_slug_char(c: char) -> bool {
    ('0' <= c <= '9') || ('a' <= c <= 'z') || ('A' <= c <= 'Z')
}

/// A character of a slug: itself if kept, else a hyphen.
pub open spec fn slug_char(c: char) -> char {
    if is_slug_char(c) {
        c
    } else {
        '-'
    }
}

/// `s` without its leading hyphens.
pub open spec fn trim_start_dashes(s: Seq<char>) -> Seq<char>
    decreases s.len(),
{
    if s.len() > 0 && s[0] == '-' {
        trim_start_dashes(s.drop_first())
    } else {
        s
    }
}

/// `s` without its trailing hyphens.
pub open spec fn trim_end_dashes(s: Seq<char>) -> Seq<char>
    decreases s.len(),
{
    if s.len() > 0 && s.last() == '-' {
        trim_end_dashes(s.drop_last())
    } else {
        s
    }
}

/// The file-name slug of a title: every character that is not an ASCII letter
/// or digit becomes a hyphen, hyphens are trimmed from both ends, and an empty
/// result becomes `export`.
pub open spec fn slug_text(s: Seq<char>) -> Seq<char> {
    let t = trim_end_dashes(trim_start_dashes(s.map_values(|c: char| slug_char(c))));
    if t.len() == 0 {
        "export"@
    } else {
        t
    }
}

/// The file-name slug of a title (see `slug_text`).
pub fn slugify(s: &str) -> (r: String)
    ensures
        r@ == slug_text(s@),
{
    let ghost mapped = s@.map_values(|c: char| slug_char(c));
    let mut v: Vec<char> = Vec::new();
    for c in it: s.chars()
        invariant
            it.seq() == s@,
            mapped == s@.map_values(|c: char| slug_char(c)),
            v@ == mapped.take(it.index() as int),
    {
        let ghost i = it.index();
        let k = if ('0' <= c && c <= '9') || ('a' <= c && c <= 'z') || ('A' <= c && c <= 'Z') {
            c
        } else {
            '-'
        };
        v.push(k);
        assert(v@ =~= mapped.take(i + 1));
    }
    assert(v@ =~= mapped);
    let n = v.len();
    let mut i: usize = 0;
    while i < n && v[i] == '-'
        invariant
            n == v@.len(),
            i <= n,
            trim_start_dashes(v@) == trim_start_dashes(v@.subrange(i as int, n as int)),
        decreases n - i,
    {
        assert(v@.subrange(i as int, n as int).drop_first() =~= v@.subrange(i + 1, n as int));
        i = i + 1;
    }
    let mut j: usize = n;
    while j > i && v[j - 1] == '-'
        invariant
            n == v@.len(),
            i <= j <= n,
            trim_start_dashes(v@) == v@.subrange(i as int, n as int),
            trim_end_dashes(v@.subrange(i as int, n as int)) == trim_end_dashes(v@.subrange(i as int, j as int)),
        decreases j - i,
    {
        assert(v@.subrange(i as int, j as int).drop_last() =~= v@.subrange(i as int, j - 1));
        j = j - 1;
    }
    let mut r = String::new();
    if i == j {
        r.append("export");
    } else {
        let mut k: usize = i;
        while k < j
            invariant
                n == v@.len(),
                i <= k <= j <= n,
                r@ == v@.subrange(i as int, k as int),
            decreases j - k,
        {
            push_char(&mut r, v[k]);
            assert(r@ =~= v@.subrange(i as int, k + 1));
            k = k + 1;
        }
    }
    r
}

/// What `str::to_lowercase` makes of a text: its Unicode lowercase mapping,
/// character by character except for a capital sigma, which becomes a final
/// sigma at the end of a word.
pub uninterp spec fn lowercase(s: Seq<char>) -> Seq<char>;

/// Calls `str::to_lowercase`.
#[verifier::external_body]
pub(crate) fn to_lowercase(s: &str) -> (r: String)
    ensures
        r@ == lowercase(s@),
{
    s.to_lowercase()
}

/// Whether `c` has the Unicode `White_Space` property, the twenty-five
/// characters that `char::is_whitespace` accepts: tab through carriage
/// return, space, next line, no-break space, ogham space mark, en quad through
/// hair space, line and paragraph separators, narrow no-break space, medium
/// mathematical space and ideographic space.
pub open spec fn is_white_space(c: char) -> bool {
    ||| ('\u{9}' <= c <= '\u{d}')
    ||| c == ' '
    ||| c == '\u{85}'
    ||| c == '\u{a0}'
    ||| c == '\u{1680}'
    ||| ('\u{2000}' <= c <= '\u{200a}')
    ||| c == '\u{2028}'
    ||| c == '\u{2029}'
    ||| c == '\u{202f}'
    ||| c == '\u{205f}'
    ||| c == '\u{3000}'
}

/// Whether `c` is white space (see `is_white_space`).
pub fn white_space(c: char) -> (r: bool)
    ensures
        r == is_white_space(c),
{
    ('\u{9}' <= c && c <= '\u{d}') || c == ' ' || c == '\u{85}' || c == '\u{a0}' || c == '\u{1680}'
        || ('\u{2000}' <= c && c <= '\u{200a}') || c == '\u{2028}' || c == '\u{2029}' || c == '\u{202f}'
        || c == '\u{205f}' || c == '\u{3000}'
}

/// `s` without its leading white space.
pub open spec fn trim_start_white(s: Seq<char>) -> Seq<char>
    decreases s.len(),
{
    if s.len() > 0 && is_white_space(s[0]) {
        trim_start_white(s.drop_first())
    } else {
        s
    }
}

/// `s` without its trailing white space.
pub open spec fn trim_end_white(s: Seq<char>) -> Seq<char>
    decreases s.len(),
{
    if s.len() > 0 && is_white_space(s.last()) {
        trim_end_white(s.drop_last())
    } else {
        s
    }
}

/// A text without its leading and trailing white space, as `str::trim`
/// leaves it.
pub open spec fn trimmed(s: Seq<char>) -> Seq<char> {
    trim_end_white(trim_start_white(s))
}

/// The text without its leading and trailing white space.
pub fn trim_text(s: &str) -> (r: String)
    ensures
        r@ == trimmed(s@),
{
    let mut v: Vec<char> = Vec::new();
    for c in it: s.chars()
        invariant
            it.seq() == s@,
            v@ == s@.take(it.index() as int),
    {
        let ghost i = it.index();
        v.push(c);
        assert(v@ =~= s@.take(i + 1));
    }
    assert(v@ =~= s@);
    let n = v.len();
    let mut i: usize = 0;
    while i < n && white_space(v[i])
        invariant
            n == v@.len(),
            i <= n,
            trim_start_white(v@) == trim_start_white(v@.subrange(i as int, n as int)),
        decreases n - i,
    {
        assert(v@.subrange(i as int, n as int).drop_first() =~= v@.subrange(i + 1, n as int));
        i = i + 1;
    }
    let mut j: usize = n;
    while j > i && white_space(v[j - 1])
        invariant
            n == v@.len(),
            i <= j <= n,
            trim_start_white(v@) == v@.subrange(i as int, n as int),
            trim_end_white(v@.subrange(i as int, n as int)) == trim_end_white(v@.subrange(i as int, j as int)),
        decreases j - i,
    {
        assert(v@.subrange(i as int, j as int).drop_last() =~= v@.subrange(i as int, j - 1));
        j = j - 1;
    }
    let mut r = String::new();
    let mut k: usize = i;
    while k < j
        invariant
            n == v@.len(),
            i <= k <= j <= n,
            r@ == v@.subrange(i as int, k as int),
        decreases j - k,
    {
        push_char(&mut r, v[k]);
        assert(r@ =~= v@.subrange(i as int, k + 1));
        k = k + 1;
    }
    r
}

/// A name as typed, already trimmed, is taken unless it is empty.
pub fn accept_name(trimmed_name: String) -> (r: Option<String>)
    ensures
        trimmed_name@.len() > 0 ==> r == Some(trimmed_name),
        trimmed_name@.len() == 0 ==> r.is_none(),
{
    if trimmed_name.as_str().is_empty() {
        None
    } else {
        Some(trimmed_name)
    }
}

/// The name a rename commits: the draft trimmed, unless that leaves nothing.
pub fn commit_name(draft: &str) -> (r: Option<String>)
    ensures
        trimmed(draft@).len() > 0 ==> (r matches Some(n) && n@ == trimmed(draft@)),
        trimmed(draft@).len() == 0 ==> r.is_none(),
{
    accept_name(trim_text(draft))
}

/// `needle` occurs in `hay` starting at position `i`.
pub open spec fn occurs_at(hay: Seq<char>, needle: Seq<char>, i: int) -> bool {
    0 <= i && i + needle.len() <= hay.len() && hay.subrange(i, i + needle.len()) == needle
}

/// `needle` occurs somewhere in `hay` (the empty text occurs in every text).
pub open spec fn has_substring(hay: Seq<char>, needle: Seq<char>) -> bool {
    exists|i: int| occurs_at(hay, needle, i)
}

/// Whether `needle` occurs in `hay` at position `i`.
fn matches_at(hay: &Vec<char>, needle: &Vec<char>, i: usize) -> (r: bool)
    requires
        i + needle@.len() <= hay@.len(),
    ensures
        r == occurs_at(hay@, needle@, i as int),
{
    proof {
        assert(hay@.len() == hay.len());
    }
    let mut j: usize = 0;
    while j < needle.len()
        invariant
            i + needle@.len() <= hay@.len(),
            hay@.len() <= usize::MAX,
            j <= needle@.len(),
            forall|k: int| 0 <= k < j ==> hay@[i + k] == needle@[k],
        decreases needle@.len() - j,
    {
        if hay[i + j] != needle[j] {
            assert(hay@.subrange(i as int, i + needle@.len())[j as int] != needle@[j as int]);
            return false;
        }
        j = j + 1;
    }
    assert(hay@.subrange(i as int, i + needle@.len()) =~= needle@);
    true
}

/// The characters of a text.
fn char_vec(s: &str) -> (r: Vec<char>)
    ensures
        r@ == s@,
{
    let mut v: Vec<char> = Vec::new();
    for c in it: s.chars()
        invariant
            it.seq() == s@,
            v@ == s@.take(it.index() as int),
    {
        let ghost i = it.index();
        v.push(c);
        assert(v@ =~= s@.take(i + 1));
    }
    assert(v@ =~= s@);
    v
}

/// Whether `needle` occurs in `hay`, as `str::contains` with a text pattern.
pub fn contains_text(hay: &str, needle: &str) -> (r: bool)
    ensures
        r == has_substring(hay@, needle@),
{
    let h = char_vec(hay);
    let n = char_vec(needle);
    if n.len() > h.len() {
        assert forall|i: int| !occurs_at(hay@, needle@, i) by {}
        return false;
    }
    let last = h.len() - n.len();
    let mut i: usize = 0;
    while i < last
        invariant
            h@ == hay@,
            n@ == needle@,
            last == h@.len() - n@.len(),
            i <= last,
            forall|k: int| 0 <= k < i ==> !occurs_at(hay@, needle@, k),
        decreases last - i,
    {
        if matches_at(&h, &n, i) {
            return true;
        }
        i = i + 1;
    }
    let found = matches_at(&h, &n, last);
    assert(!found ==> forall|k: int| !occurs_at(hay@, needle@, k));
    found
}

/// Escaped text holds no `<`, `>` or `"`: it cannot open a tag or close an
/// attribute value.
pub proof fn law_escaped_has_no_markup(s: Seq<char>)
    ensures
        !escape_text(s).contains('<'),
        !escape_text(s).contains('>'),
        !escape_text(s).contains('"'),
    decreases s.len(),
{
    reveal_strlit("&amp;");
    reveal_strlit("&lt;");
    reveal_strlit("&gt;");
    reveal_strlit("&quot;");
    if s.len() > 0 {
        law_escaped_has_no_markup(s.drop_last());
        let a = escape_text(s.drop_last());
        let b = escape_char(s.last());
        assert(escape_text(s) == a + b);
        assert forall|c: char| c == '<' || c == '>' || c == '"' implies !(a + b).contains(c) by {
            if (a + b).contains(c) {
                let j = choose|j: int| 0 <= j < (a + b).len() && (a + b)[j] == c;
                if j < a.len() {
                    assert(a[j] == c);
                } else {
                    assert(b[j - a.len()] == c);
                }
            }
        }
    }
}

/// Text without any of `&`, `<`, `>` and `"` is left as it is by escaping.
pub proof fn law_escape_plain_text(s: Seq<char>)
    requires
        !s.contains('&'),
        !s.contains('<'),
        !s.contains('>'),
        !s.contains('"'),
    ensures
        escape_text(s) == s,
    decreases s.len(),
{
    if s.len() > 0 {
        let t = s.drop_last();
        assert(!t.contains('&') && !t.contains('<') && !t.contains('>') && !t.contains('"')) by {
            assert forall|c: char| #[trigger] t.contains(c) implies s.contains(c) by {
                let j = choose|j: int| 0 <= j < t.len() && t[j] == c;
                assert(s[j] == c);
            }
        }
        law_escape_plain_text(t);
        assert(s[s.len() - 1] == s.last());
        assert(s =~= t.push(s.last()));
    }
}

/// Whether a search matches a text, both already lowercased: an empty query
/// matches everything, any other matches where it occurs.
pub fn matches_query(text_lower: &str, query_lower: &str) -> (r: bool)
    ensures
        r == (query_lower@.len() == 0 || has_substring(text_lower@, query_lower@)),
{
    query_lower.is_empty() || contains_text(text_lower, query_lower)
}

/// HTML text read back: the entities `&amp;`, `&lt;`, `&gt;` and `&quot;`
/// become the characters they stand for; everything else is kept.
pub open spec fn unescape_text(s: Seq<char>) -> Seq<char>
    decreases s.len(),
{
    if s.len() == 0 {
        Seq::empty()
    } else if s.len() >= 5 && s.subrange(0, 5) == "&amp;"@ {
        seq!['&'] + unescape_text(s.subrange(5, s.len() as int))
    } else if s.len() >= 4 && s.subrange(0, 4) == "&lt;"@ {
        seq!['<'] + unescape_text(s.subrange(4, s.len() as int))
    } else if s.len() >= 4 && s.subrange(0, 4) == "&gt;"@ {
        seq!['>'] + unescape_text(s.subrange(4, s.len() as int))
    } else if s.len() >= 6 && s.subrange(0, 6) == "&quot;"@ {
        seq!['"'] + unescape_text(s.subrange(6, s.len() as int))
    } else {
        seq![s[0]] + unescape_text(s.drop_first())
    }
}

/// Escaping works from the front as well.
proof fn lemma_escape_front(s: Seq<char>)
    requires
        s.len() > 0,
    ensures
        escape_text(s) == escape_char(s[0]) + escape_text(s.drop_first()),
    decreases s.len(),
{
    if s.len() == 1 {
        assert(s.drop_last() =~= Seq::<char>::empty());
        assert(s.drop_first() =~= Seq::<char>::empty());
        assert(escape_text(s.drop_last()) == Seq::<char>::empty());
        assert(s.last() == s[0]);
        assert(escape_text(s) =~= escape_char(s[0]));
    } else {
        let t = s.drop_last();
        lemma_escape_front(t);
        assert(t.drop_first() =~= s.drop_first().drop_last());
        assert(s.drop_first().last() == s.last());
        assert(t[0] == s[0]);
        assert(escape_text(s.drop_first()) == escape_text(s.drop_first().drop_last()) + escape_char(
            s.drop_first().last(),
        ));
        assert(escape_text(s) =~= escape_char(s[0]) + escape_text(s.drop_first()));
    }
}

/// Reading back one escaped character gives the character.
proof fn lemma_unescape_char(c: char, x: Seq<char>)
    ensures
        unescape_text(escape_char(c) + x) == seq![c] + unescape_text(x),
{
    reveal_strlit("&amp;");
    reveal_strlit("&lt;");
    reveal_strlit("&gt;");
    reveal_strlit("&quot;");
    let e = escape_char(c) + x;
    if c == '&' {
        assert(e.subrange(0, 5) =~= "&amp;"@);
        assert(e.subrange(5, e.len() as int) =~= x);
    } else if c == '<' {
        assert(e[1] == 'l');
        assert(e.subrange(0, 4) =~= "&lt;"@);
        assert(e.subrange(4, e.len() as int) =~= x);
        if e.len() >= 5 {
            assert(e.subrange(0, 5)[1] != "&amp;"@[1]);
        }
    } else if c == '>' {
        assert(e[1] == 'g');
        assert(e.subrange(0, 4) =~= "&gt;"@);
        assert(e.subrange(4, e.len() as int) =~= x);
        if e.len() >= 5 {
            assert(e.subrange(0, 5)[1] != "&amp;"@[1]);
        }
        assert(e.subrange(0, 4)[1] != "&lt;"@[1]);
    } else if c == '"' {
        assert(e[1] == 'q');
        assert(e.subrange(0, 6) =~= "&quot;"@);
        assert(e.subrange(6, e.len() as int) =~= x);
        assert(e.subrange(0, 5)[1] != "&amp;"@[1]);
        assert(e.subrange(0, 4)[1] != "&lt;"@[1]);
        assert(e.subrange(0, 4)[1] != "&gt;"@[1]);
    } else {
        assert(e[0] == c);
        if e.len() >= 5 {
            assert(e.subrange(0, 5)[0] != "&amp;"@[0]);
        }
        if e.len() >= 4 {
            assert(e.subrange(0, 4)[0] != "&lt;"@[0]);
            assert(e.subrange(0, 4)[0] != "&gt;"@[0]);
        }
        if e.len() >= 6 {
            assert(e.subrange(0, 6)[0] != "&quot;"@[0]);
        }
        assert(e.drop_first() =~= x);
    }
}

/// Reading escaped text back gives the text that was escaped.
pub proof fn law_unescape_escaped(s: Seq<char>)
    ensures
        unescape_text(escape_text(s)) == s,
    decreases s.len(),
{
    if s.len() > 0 {
        lemma_escape_front(s);
        lemma_unescape_char(s[0], escape_text(s.drop_first()));
        law_unescape_escaped(s.drop_first());
        assert(seq![s[0]] + s.drop_first() =~= s);
    }
}

proof fn lemma_trim_start(s: Seq<char>)
    ensures
        forall|c: char| trim_start_dashes(s).contains(c) ==> s.contains(c),
        trim_start_dashes(s).len() > 0 ==> trim_start_dashes(s)[0] != '-',
        trim_start_dashes(s).len() > 0 ==> trim_start_dashes(s).last() == s.last(),
    decreases s.len(),
{
    if s.len() > 0 && s[0] == '-' {
        let t = s.drop_first();
        lemma_trim_start(t);
        assert forall|c: char| t.contains(c) implies s.contains(c) by {
            let j = choose|j: int| 0 <= j < t.len() && t[j] == c;
            assert(s[j + 1] == c);
        }
    }
}

proof fn lemma_trim_end(s: Seq<char>)
    ensures
        forall|c: char| trim_end_dashes(s).contains(c) ==> s.contains(c),
        trim_end_dashes(s).len() > 0 ==> trim_end_dashes(s).last() != '-',
        trim_end_dashes(s).len() > 0 ==> trim_end_dashes(s)[0] == s[0],
    decreases s.len(),
{
    if s.len() > 0 && s.last() == '-' {
        let t = s.drop_last();
        lemma_trim_end(t);
        assert forall|c: char| t.contains(c) implies s.contains(c) by {
            let j = choose|j: int| 0 <= j < t.len() && t[j] == c;
            assert(s[j] == c);
        }
    }
}

/// A slug is never empty, holds only ASCII letters, digits and hyphens, and
/// neither starts nor ends with a hyphen.
pub proof fn law_slug_is_file_name(s: Seq<char>)
    ensures
        slug_text(s).len() > 0,
        forall|i: int| 0 <= i < slug_text(s).len() ==> is_slug_char(#[trigger] slug_text(s)[i]) || slug_text(s)[i] == '-',
        slug_text(s)[0] != '-',
        slug_text(s).last() != '-',
{
    reveal_strlit("export");
    let m = s.map_values(|c: char| slug_char(c));
    let a = trim_start_dashes(m);
    let t = trim_end_dashes(a);
    lemma_trim_start(m);
    lemma_trim_end(a);
    if t.len() > 0 {
        assert forall|i: int| 0 <= i < t.len() implies is_slug_char(#[trigger] t[i]) || t[i] == '-' by {
            assert(t.contains(t[i]));
            assert(m.contains(t[i]));
            let j = choose|j: int| 0 <= j < m.len() && m[j] == t[i];
            assert(m[j] == slug_char(s[j]));
        }
    } else {
        let e = "export"@;
        assert forall|i: int| 0 <= i < e.len() implies is_slug_char(#[trigger] e[i]) || e[i] == '-' by {}
    }
}

/// A title that starts and ends with an ASCII letter or digit keeps its
/// length in the slug, and every character of it stays where it is: letters
/// and digits as they are, anything else as a hyphen.
pub proof fn law_slug_keeps_letters_and_digits(s: Seq<char>)
    requires
        s.len() > 0,
        ('0' <= s[0] <= '9') || ('a' <= s[0] <= 'z') || ('A' <= s[0] <= 'Z'),
        ('0' <= s.last() <= '9') || ('a' <= s.last() <= 'z') || ('A' <= s.last() <= 'Z'),
    ensures
        slug_text(s).len() == s.len(),
        forall|i: int|
            0 <= i < s.len() ==> (#[trigger] slug_text(s)[i] == if ('0' <= s[i] <= '9') || ('a' <= s[i] <= 'z') || (
            'A' <= s[i] <= 'Z') {
                s[i]
            } else {
                '-'
            }),
{
    let m = s.map_values(|c: char| slug_char(c));
    assert(m[0] == s[0]);
    assert(m.last() == s.last());
    assert(trim_start_dashes(m) == m);
    assert(trim_end_dashes(m) == m);
}

/// A title made only of ASCII letters and digits is its own slug.
pub proof fn law_alphanumeric_title_is_its_slug(s: Seq<char>)
    requires
        s.len() > 0,
        forall|i: int|
            0 <= i < s.len() ==> ('0' <= #[trigger] s[i] <= '9') || ('a' <= s[i] <= 'z') || ('A' <= s[i] <= 'Z'),
    ensures
        slug_text(s) == s,
{
    law_slug_keeps_letters_and_digits(s);
    assert(slug_text(s) =~= s);
}

} // verus!
