//! Character-level text utilities shared by the export graph and the code
//! generators: CSS identifier escaping and unescaping, comment stripping,
//! camel-casing for export-name conventions, and module-id normalization.

use vstd::prelude::*;

verus! {

/// True for characters that survive CSS identifier escaping unchanged.
pub open spec fn css_plain_char(c: char) -> bool {
    ('a' <= c && c <= 'z') || ('A' <= c && c <= 'Z') || ('0' <= c && c <= '9') || c == '-'
        || c == '_'
}

/// CSS identifier escaping: every character outside `[A-Za-z0-9_-]` is
/// preceded by a backslash.
pub open spec fn escape_css_seq(s: Seq<char>) -> Seq<char>
    decreases s.len(),
{
    if s.len() == 0 {
        Seq::empty()
    } else {
        (if css_plain_char(s[0]) {
            seq![s[0]]
        } else {
            seq!['\\', s[0]]
        }) + escape_css_seq(s.skip(1))
    }
}

/// Unescaping: each backslash is dropped and the character after it is kept
/// literally.
pub open spec fn unescape_seq(s: Seq<char>) -> Seq<char>
    decreases s.len(),
{
    if s.len() == 0 {
        Seq::empty()
    } else if s[0] == '\\' {
        if s.len() == 1 {
            Seq::empty()
        } else {
            seq![s[1]] + unescape_seq(s.skip(2))
        }
    } else {
        seq![s[0]] + unescape_seq(s.skip(1))
    }
}

/// Path separators normalized to `/`: every backslash is replaced.
pub open spec fn normalize_separators_seq(s: Seq<char>) -> Seq<char> {
    s.map_values(|c: char| if c == '\\' { '/' } else { c })
}

/// Collects the characters of a string slice into a vector.
pub fn chars_of(s: &str) -> (r: Vec<char>)
    ensures
        r@ == s@,
{
    let n = s.unicode_len();
    let mut r: Vec<char> = Vec::new();
    let mut i: usize = 0;
    while i < n
        invariant
            i <= n,
            n == s@.len(),
            r@ == s@.subrange(0, i as int),
        decreases n - i,
    {
        let c = s.get_char(i);
        r.push(c);
        i = i + 1;
        assert(r@ =~= s@.subrange(0, i as int));
    }
    assert(r@ =~= s@);
    r
}

/// Relies on `String`'s `FromIterator<char>` implementation: collecting an
/// iterator of characters yields the string of exactly those characters in
/// order.
#[verifier::external_body]
pub fn chars_to_string(v: &Vec<char>) -> (r: String)
    ensures
        r@ == v@,
{
    v.iter().collect()
}

/// Escapes a name for use inside generated CSS metadata.
pub fn escape_css(s: &str) -> (r: String)
    ensures
        r@ == escape_css_seq(s@),
{
    let cs = chars_of(s);
    let n = cs.len();
    let mut out: Vec<char> = Vec::new();
    let mut i: usize = 0;
    while i < n
        invariant
            i <= n,
            n == cs.len(),
            cs@ == s@,
            out@ == escape_css_seq(s@.subrange(0, i as int)),
        decreases n - i,
    {
        let c = cs[i];
        let plain = ('a' <= c && c <= 'z') || ('A' <= c && c <= 'Z') || ('0' <= c && c <= '9')
            || c == '-' || c == '_';
        if plain {
            out.push(c);
        } else {
            out.push('\\');
            out.push(c);
        }
        i = i + 1;
        proof {
            lemma_escape_css_snoc(s@, i as int);
        }
    }
    assert(s@.subrange(0, n as int) =~= s@);
    chars_to_string(&out)
}

/// Uppercases an ASCII lowercase letter; any other character is unchanged.
pub open spec fn ascii_upper(c: char) -> char {
    if 'a' <= c && c <= 'z' {
        ((c as u8) - 32) as char
    } else {
        c
    }
}

/// Camel-casing of the tail `s`, where `up` says whether the next letter
/// begins a new word.  `-` and `_` are dropped and uppercase the letter
/// that follows them.
pub open spec fn camel_rest(s: Seq<char>, up: bool) -> Seq<char>
    decreases s.len(),
{
    if s.len() == 0 {
        Seq::empty()
    } else if s[0] == '-' || s[0] == '_' {
        camel_rest(s.skip(1), true)
    } else {
        seq![if up { ascii_upper(s[0]) } else { s[0] }] + camel_rest(s.skip(1), false)
    }
}

/// Camel-cased form of a raw export name: `foo-bar` becomes `fooBar`.
pub open spec fn camel_case_seq(s: Seq<char>) -> Seq<char> {
    camel_rest(s, false)
}

/// Converts a raw export name to its camel-cased form.
pub fn camel_case(s: &str) -> (r: String)
    ensures
        r@ == camel_case_seq(s@),
{
    let cs = chars_of(s);
    let n = cs.len();
    let mut out: Vec<char> = Vec::new();
    let mut up = false;
    let mut i: usize = 0;
    proof {
        assert(s@.skip(0) =~= s@);
        assert(Seq::<char>::empty() + camel_rest(s@, false) =~= camel_rest(s@, false));
    }
    while i < n
        invariant
            i <= n,
            n == cs.len(),
            cs@ == s@,
            camel_case_seq(s@) == out@ + camel_rest(s@.skip(i as int), up),
        decreases n - i,
    {
        let c = cs[i];
        proof {
            assert(s@.skip(i as int)[0] == s@[i as int]);
            assert(s@.skip(i as int).skip(1) =~= s@.skip(i as int + 1));
        }
        if c == '-' || c == '_' {
            up = true;
        } else {
            let d = if up {
                if 'a' <= c && c <= 'z' {
                    ((c as u8) - 32) as char
                } else {
                    c
                }
            } else {
                c
            };
            out.push(d);
            up = false;
        }
        i = i + 1;
    }
    proof {
        assert(s@.skip(n as int) =~= Seq::<char>::empty());
    }
    chars_to_string(&out)
}

/// Dash-only camel-casing of the tail `s`: `-` is dropped and uppercases
/// the letter that follows it; underscores are kept.
pub open spec fn dashes_rest(s: Seq<char>, up: bool) -> Seq<char>
    decreases s.len(),
{
    if s.len() == 0 {
        Seq::empty()
    } else if s[0] == '-' {
        dashes_rest(s.skip(1), true)
    } else {
        seq![if up { ascii_upper(s[0]) } else { s[0] }] + dashes_rest(s.skip(1), false)
    }
}

/// Dash-only camel-cased form of a raw export name.
pub open spec fn dashes_camel_seq(s: Seq<char>) -> Seq<char> {
    dashes_rest(s, false)
}

/// Converts a raw export name to its dash-only camel-cased form.
pub fn dashes_camel(s: &str) -> (r: String)
    ensures
        r@ == dashes_camel_seq(s@),
{
    let cs = chars_of(s);
    let n = cs.len();
    let mut out: Vec<char> = Vec::new();
    let mut up = false;
    let mut i: usize = 0;
    proof {
        assert(s@.skip(0) =~= s@);
        assert(Seq::<char>::empty() + dashes_rest(s@, false) =~= dashes_rest(s@, false));
    }
    while i < n
        invariant
            i <= n,
            n == cs.len(),
            cs@ == s@,
            dashes_camel_seq(s@) == out@ + dashes_rest(s@.skip(i as int), up),
        decreases n - i,
    {
        let c = cs[i];
        proof {
            assert(s@.skip(i as int)[0] == s@[i as int]);
            assert(s@.skip(i as int).skip(1) =~= s@.skip(i as int + 1));
        }
        if c == '-' {
            up = true;
        } else {
            let d = if up {
                if 'a' <= c && c <= 'z' {
                    ((c as u8) - 32) as char
                } else {
                    c
                }
            } else {
                c
            };
            out.push(d);
            up = false;
        }
        i = i + 1;
    }
    proof {
        assert(s@.skip(n as int) =~= Seq::<char>::empty());
    }
    chars_to_string(&out)
}

/// JavaScript string-literal escaping: `"` and `\` are preceded by a
/// backslash.
pub open spec fn js_escape_seq(s: Seq<char>) -> Seq<char>
    decreases s.len(),
{
    if s.len() == 0 {
        Seq::empty()
    } else {
        (if s[0] == '"' || s[0] == '\\' {
            seq!['\\', s[0]]
        } else {
            seq![s[0]]
        }) + js_escape_seq(s.skip(1))
    }
}

/// Escapes a name for use inside a JavaScript string literal.
pub fn js_escape(s: &str) -> (r: String)
    ensures
        r@ == js_escape_seq(s@),
{
    let cs = chars_of(s);
    let n = cs.len();
    let mut out: Vec<char> = Vec::new();
    let mut i: usize = 0;
    proof {
        assert(s@.skip(0) =~= s@);
        assert(Seq::<char>::empty() + js_escape_seq(s@) =~= js_escape_seq(s@));
    }
    while i < n
        invariant
            i <= n,
            n == cs.len(),
            cs@ == s@,
            js_escape_seq(s@) == out@ + js_escape_seq(s@.skip(i as int)),
        decreases n - i,
    {
        proof {
            assert(s@.skip(i as int)[0] == s@[i as int]);
            assert(s@.skip(i as int).skip(1) =~= s@.skip(i as int + 1));
        }
        let c = cs[i];
        if c == '"' || c == '\\' {
            out.push('\\');
            out.push(c);
        } else {
            out.push(c);
        }
        i = i + 1;
    }
    proof {
        assert(s@.skip(n as int) =~= Seq::<char>::empty());
    }
    chars_to_string(&out)
}

/// Removes each backslash escape: the backslash is dropped and the escaped
/// character kept.
pub fn unescape(s: &str) -> (r: String)
    ensures
        r@ == unescape_seq(s@),
{
    let cs = chars_of(s);
    let n = cs.len();
    let mut out: Vec<char> = Vec::new();
    let mut i: usize = 0;
    proof {
        assert(s@.skip(0) =~= s@);
        assert(Seq::<char>::empty() + unescape_seq(s@) =~= unescape_seq(s@));
    }
    while i < n
        invariant
            i <= n,
            n == cs.len(),
            cs@ == s@,
            unescape_seq(s@) == out@ + unescape_seq(s@.skip(i as int)),
        decreases n - i,
    {
        proof {
            assert(s@.skip(i as int)[0] == s@[i as int]);
            assert(s@.skip(i as int).skip(1) =~= s@.skip(i as int + 1));
            if i + 1 < n {
                assert(s@.skip(i as int)[1] == s@[i as int + 1]);
                assert(s@.skip(i as int).skip(2) =~= s@.skip(i as int + 2));
            }
        }
        let c = cs[i];
        if c == '\\' {
            if i + 1 < n {
                out.push(cs[i + 1]);
                i = i + 2;
            } else {
                i = i + 1;
                assert(s@.skip(i as int - 1).len() == 1);
            }
        } else {
            out.push(c);
            i = i + 1;
        }
    }
    proof {
        assert(s@.skip(n as int) =~= Seq::<char>::empty());
    }
    chars_to_string(&out)
}

/// Replaces every backslash by `/`, the normalized module-id separator.
pub fn normalize_separators(s: &str) -> (r: String)
    ensures
        r@ == normalize_separators_seq(s@),
{
    let cs = chars_of(s);
    let n = cs.len();
    let mut out: Vec<char> = Vec::new();
    let mut i: usize = 0;
    while i < n
        invariant
            i <= n,
            n == cs.len(),
            cs@ == s@,
            out@ =~= s@.subrange(0, i as int).map_values(
                |c: char| if c == '\\' { '/' } else { c },
            ),
        decreases n - i,
    {
        let c = cs[i];
        if c == '\\' {
            out.push('/');
        } else {
            out.push(c);
        }
        i = i + 1;
        assert(out@ =~= s@.subrange(0, i as int).map_values(
            |c: char| if c == '\\' { '/' } else { c },
        ));
    }
    assert(s@.subrange(0, n as int) =~= s@);
    chars_to_string(&out)
}

/// Selects the character class that `trim_chars` removes: quote characters
/// or ASCII whitespace.
pub open spec fn trim_sel(quotes: bool, c: char) -> bool {
    if quotes {
        c == '\'' || c == '"'
    } else {
        c == ' ' || c == '\t' || c == '\n' || c == '\r'
    }
}

pub open spec fn trim_front_seq(s: Seq<char>, quotes: bool) -> Seq<char>
    decreases s.len(),
{
    if s.len() > 0 && trim_sel(quotes, s[0]) {
        trim_front_seq(s.skip(1), quotes)
    } else {
        s
    }
}

pub open spec fn trim_back_seq(s: Seq<char>, quotes: bool) -> Seq<char>
    decreases s.len(),
{
    if s.len() > 0 && trim_sel(quotes, s.last()) {
        trim_back_seq(s.drop_last(), quotes)
    } else {
        s
    }
}

/// The string with every leading and trailing character of the selected
/// class removed.
pub open spec fn trim_seq(s: Seq<char>, quotes: bool) -> Seq<char> {
    trim_back_seq(trim_front_seq(s, quotes), quotes)
}

/// Decides membership in the trimmed character class.
fn is_trim_char(c: char, quotes: bool) -> (r: bool)
    ensures
        r == trim_sel(quotes, c),
{
    if quotes {
        c == '\'' || c == '"'
    } else {
        c == ' ' || c == '\t' || c == '\n' || c == '\r'
    }
}

/// Trims quote characters (`quotes == true`) or ASCII whitespace
/// (`quotes == false`) from both ends.
pub fn trim_chars(s: &str, quotes: bool) -> (r: String)
    ensures
        r@ == trim_seq(s@, quotes),
{
    let cs = chars_of(s);
    let n = cs.len();
    let mut a: usize = 0;
    proof {
        assert(s@.skip(0) =~= s@);
    }
    while a < n && is_trim_char(cs[a], quotes)
        invariant
            a <= n,
            n == cs.len(),
            cs@ == s@,
            trim_front_seq(s@, quotes) == trim_front_seq(s@.skip(a as int), quotes),
        decreases n - a,
    {
        proof {
            assert(s@.skip(a as int)[0] == s@[a as int]);
            assert(s@.skip(a as int).skip(1) =~= s@.skip(a as int + 1));
        }
        a = a + 1;
    }
    proof {
        if a == n {
            assert(s@.skip(a as int) =~= Seq::<char>::empty());
        }
        assert(trim_front_seq(s@, quotes) == s@.skip(a as int));
    }
    let ghost t = s@.skip(a as int);
    let mut b: usize = n;
    proof {
        assert(t.subrange(0, (b - a) as int) =~= t);
    }
    while b > a && is_trim_char(cs[b - 1], quotes)
        invariant
            a <= b <= n,
            n == cs.len(),
            cs@ == s@,
            t == s@.skip(a as int),
            trim_back_seq(t, quotes) == trim_back_seq(t.subrange(0, (b - a) as int), quotes),
        decreases b,
    {
        proof {
            let m = (b - a) as int;
            assert(t.subrange(0, m).last() == t[m - 1]);
            assert(t[m - 1] == s@[b as int - 1]);
            assert(t.subrange(0, m).drop_last() =~= t.subrange(0, m - 1));
        }
        b = b - 1;
    }
    proof {
        if b == a {
            assert(t.subrange(0, 0) =~= Seq::<char>::empty());
        }
        assert(trim_back_seq(t, quotes) == t.subrange(0, (b - a) as int));
    }
    let mut out: Vec<char> = Vec::new();
    let mut i: usize = a;
    while i < b
        invariant
            a <= i <= b <= n,
            n == cs.len(),
            cs@ == s@,
            out@ == s@.subrange(a as int, i as int),
        decreases b - i,
    {
        out.push(cs[i]);
        i = i + 1;
        assert(out@ =~= s@.subrange(a as int, i as int));
    }
    proof {
        assert(s@.subrange(a as int, b as int) =~= t.subrange(0, (b - a) as int));
    }
    chars_to_string(&out)
}

/// Offset, counted from `i`, of the first `*/` at or after position `i`.
pub open spec fn find_close_from(s: Seq<char>, i: int) -> Option<nat>
    decreases s.len() - i,
{
    if i < 0 || i + 2 > s.len() {
        None
    } else if s[i] == '*' && s[i + 1] == '/' {
        Some(0)
    } else {
        match find_close_from(s, i + 1) {
            Some(k) => Some((k + 1) as nat),
            None => None,
        }
    }
}

/// The text from position `i` on, with every lazily-matched `/* ... */`
/// comment removed; a `/*` with no closing `*/` is kept verbatim.
pub open spec fn strip_comments_from(s: Seq<char>, i: int) -> Seq<char>
    decreases s.len() - i,
{
    if i < 0 || i >= s.len() {
        Seq::empty()
    } else if i + 2 <= s.len() && s[i] == '/' && s[i + 1] == '*' {
        match find_close_from(s, i + 2) {
            Some(k) => {
                let j = i + 4 + k;
                if j <= s.len() {
                    strip_comments_from(s, j)
                } else {
                    s.skip(i)
                }
            },
            None => s.skip(i),
        }
    } else {
        seq![s[i]] + strip_comments_from(s, i + 1)
    }
}

/// The text with every CSS comment removed.
pub open spec fn strip_comments_seq(s: Seq<char>) -> Seq<char> {
    strip_comments_from(s, 0)
}

/// Removes every `/* ... */` comment; an unterminated comment opener is kept
/// verbatim.
pub fn strip_comments(s: &str) -> (r: String)
    ensures
        r@ == strip_comments_seq(s@),
{
    let cs = chars_of(s);
    let n = cs.len();
    let mut out: Vec<char> = Vec::new();
    let mut i: usize = 0;
    proof {
        assert(Seq::<char>::empty() + strip_comments_from(s@, 0) =~= strip_comments_from(s@, 0));
    }
    while i < n
        invariant
            i <= n,
            n == cs.len(),
            cs@ == s@,
            strip_comments_seq(s@) == out@ + strip_comments_from(s@, i as int),
        decreases n - i,
    {
        if i + 1 < n && cs[i] == '/' && cs[i + 1] == '*' {
            let mut j: usize = i + 2;
            while j < n - 1 && !(cs[j] == '*' && cs[j + 1] == '/')
                invariant
                    2 <= n,
                    i + 2 <= j <= n,
                    n == cs.len(),
                    cs@ == s@,
                    find_close_from(s@, i as int + 2) == match find_close_from(s@, j as int) {
                        Some(k) => Some((k + j - i - 2) as nat),
                        None => None::<nat>,
                    },
                decreases n - j,
            {
                j = j + 1;
            }
            if j < n - 1 {
                assert(find_close_from(s@, j as int) == Some(0nat));
                assert(find_close_from(s@, i as int + 2) == Some((j - i - 2) as nat));
                i = j + 2;
            } else {
                assert(find_close_from(s@, j as int) is None);
                assert(find_close_from(s@, i as int + 2) is None);
                assert(strip_comments_from(s@, i as int) == s@.skip(i as int));
                let ghost rest_start = i as int;
                let ghost out0 = out@;
                proof {
                    assert(out@ =~= out0 + s@.subrange(rest_start, rest_start));
                }
                while i < n
                    invariant
                        0 <= rest_start <= i <= n,
                        n == cs.len(),
                        cs@ == s@,
                        out@ == out0 + s@.subrange(rest_start, i as int),
                        strip_comments_seq(s@) == out0 + s@.skip(rest_start),
                    decreases n - i,
                {
                    out.push(cs[i]);
                    i = i + 1;
                    assert(out@ =~= out0 + s@.subrange(rest_start, i as int));
                }
                proof {
                    assert(s@.subrange(rest_start, n as int) =~= s@.skip(rest_start));
                    assert(strip_comments_from(s@, n as int) =~= Seq::<char>::empty());
                    assert(out@ + strip_comments_from(s@, i as int) =~= out0 + s@.skip(rest_start));
                }
            }
        } else {
            proof {
                if i + 1 < n {
                } else {
                    assert(!(i as int + 2 <= s@.len() && s@[i as int] == '/' && s@[i as int + 1]
                        == '*'));
                }
            }
            out.push(cs[i]);
            i = i + 1;
        }
    }
    proof {
        assert(strip_comments_from(s@, n as int) =~= Seq::<char>::empty());
    }
    chars_to_string(&out)
}

/// True when position `d` holds the final `.` of a `.module.` or
/// `.modules.` infix of `p`.
pub open spec fn module_dot_at(p: Seq<char>, d: int) -> bool {
    (d >= 7 && p.subrange(d - 7, d + 1) =~= seq!['.', 'm', 'o', 'd', 'u', 'l', 'e', '.']) || (d >= 8
        && p.subrange(d - 8, d + 1) =~= seq!['.', 'm', 'o', 'd', 'u', 'l', 'e', 's', '.'])
}

/// The path names a CSS module: it ends in `.module.<ext>` or
/// `.modules.<ext>` where `<ext>` is nonempty and has no further dot.
pub open spec fn is_module_path_seq(p: Seq<char>) -> bool {
    exists|d: int|
        0 <= d < p.len() - 1 && p[d] == '.' && (forall|k: int| d < k < p.len() ==> p[k] != '.')
            && module_dot_at(p, d)
}

/// Decides whether a resource path names a CSS module.
pub fn is_module_path(p: &str) -> (r: bool)
    ensures
        r == is_module_path_seq(p@),
{
    let cs = chars_of(p);
    let n = cs.len();
    let mut d: usize = n;
    while d > 0 && cs[d - 1] != '.'
        invariant
            d <= n,
            n == cs.len(),
            cs@ == p@,
            forall|k: int| d <= k < n ==> p@[k] != '.',
        decreases d,
    {
        d = d - 1;
    }
    if d == 0 {
        proof {
            assert forall|d2: int|
                !(0 <= d2 < p@.len() - 1 && p@[d2] == '.' && (forall|k: int|
                    d2 < k < p@.len() ==> p@[k] != '.') && module_dot_at(p@, d2)) by {
                if 0 <= d2 < p@.len() {
                    assert(p@[d2] != '.');
                }
            }
        }
        return false;
    }
    let dot = d - 1;
    if n - dot < 2 {
        proof {
            lemma_unique_last_dot(p@, dot as int);
        }
        return false;
    }
    let is_module = dot >= 7 && cs[dot - 7] == '.' && cs[dot - 6] == 'm' && cs[dot - 5] == 'o'
        && cs[dot - 4] == 'd' && cs[dot - 3] == 'u' && cs[dot - 2] == 'l' && cs[dot - 1] == 'e';
    let is_modules = dot >= 8 && cs[dot - 8] == '.' && cs[dot - 7] == 'm' && cs[dot - 6] == 'o'
        && cs[dot - 5] == 'd' && cs[dot - 4] == 'u' && cs[dot - 3] == 'l' && cs[dot - 2] == 'e'
        && cs[dot - 1] == 's';
    proof {
        if is_module {
            assert(p@.subrange(dot as int - 7, dot as int + 1) =~= seq![
                '.',
                'm',
                'o',
                'd',
                'u',
                'l',
                'e',
                '.',
            ]);
        }
        if is_modules {
            assert(p@.subrange(dot as int - 8, dot as int + 1) =~= seq![
                '.',
                'm',
                'o',
                'd',
                'u',
                'l',
                'e',
                's',
                '.',
            ]);
        }
        if !(is_module || is_modules) {
            lemma_unique_last_dot(p@, dot as int);
            if module_dot_at(p@, dot as int) {
                if dot >= 7 && p@.subrange(dot as int - 7, dot as int + 1) =~= seq![
                    '.',
                    'm',
                    'o',
                    'd',
                    'u',
                    'l',
                    'e',
                    '.',
                ] {
                    assert(p@[dot as int - 7] == '.' && p@[dot as int - 6] == 'm' && p@[dot as int
                        - 5] == 'o' && p@[dot as int - 4] == 'd' && p@[dot as int - 3] == 'u'
                        && p@[dot as int - 2] == 'l' && p@[dot as int - 1] == 'e');
                }
                if dot >= 8 && p@.subrange(dot as int - 8, dot as int + 1) =~= seq![
                    '.',
                    'm',
                    'o',
                    'd',
                    'u',
                    'l',
                    'e',
                    's',
                    '.',
                ] {
                    assert(p@[dot as int - 8] == '.' && p@[dot as int - 7] == 'm' && p@[dot as int
                        - 6] == 'o' && p@[dot as int - 5] == 'd' && p@[dot as int - 4] == 'u'
                        && p@[dot as int - 3] == 'l' && p@[dot as int - 2] == 'e' && p@[dot as int
                        - 1] == 's');
                }
                assert(false);
            }
        }
    }
    is_module || is_modules
}

/// Any witness to `is_module_path_seq` must be the final dot `dot`, given
/// that no dot follows `dot`.
proof fn lemma_unique_last_dot(p: Seq<char>, dot: int)
    requires
        0 <= dot < p.len(),
        p[dot] == '.',
        forall|k: int| dot < k < p.len() ==> p[k] != '.',
    ensures
        is_module_path_seq(p) ==> (dot < p.len() - 1 && module_dot_at(p, dot)),
{
    if is_module_path_seq(p) {
        let d2 = choose|d2: int|
            0 <= d2 < p.len() - 1 && p[d2] == '.' && (forall|k: int|
                d2 < k < p.len() ==> p[k] != '.') && module_dot_at(p, d2);
        if d2 < dot {
            assert(p[dot] != '.');
        }
        if d2 > dot {
            assert(p[d2] != '.');
        }
        assert(d2 == dot);
    }
}

proof fn lemma_escape_css_snoc(s: Seq<char>, i: int)
    requires
        0 < i <= s.len(),
    ensures
        escape_css_seq(s.subrange(0, i)) == escape_css_seq(s.subrange(0, i - 1)) + (if css_plain_char(
            s[i - 1],
        ) {
            seq![s[i - 1]]
        } else {
            seq!['\\', s[i - 1]]
        }),
    decreases i,
{
    let p = s.subrange(0, i);
    if i == 1 {
        assert(p.skip(1) =~= Seq::<char>::empty());
        assert(s.subrange(0, 0) =~= Seq::<char>::empty());
        assert(escape_css_seq(p) =~= escape_css_seq(s.subrange(0, 0)) + (if css_plain_char(s[0]) {
            seq![s[0]]
        } else {
            seq!['\\', s[0]]
        }));
    } else {
        let t = s.skip(1);
        assert(p.skip(1) =~= t.subrange(0, i - 1));
        assert(s.subrange(0, i - 1).skip(1) =~= t.subrange(0, i - 2));
        lemma_escape_css_snoc(t, i - 1);
        assert(t[i - 2] == s[i - 1]);
        assert(escape_css_seq(p) == (if css_plain_char(p[0]) {
            seq![p[0]]
        } else {
            seq!['\\', p[0]]
        }) + escape_css_seq(t.subrange(0, i - 1)));
        assert(s.subrange(0, i - 1)[0] == s[0] && p[0] == s[0]);
        assert(escape_css_seq(s.subrange(0, i - 1)) == (if css_plain_char(s[0]) {
            seq![s[0]]
        } else {
            seq!['\\', s[0]]
        }) + escape_css_seq(t.subrange(0, i - 2)));
        assert(escape_css_seq(p) =~= escape_css_seq(s.subrange(0, i - 1)) + (if css_plain_char(
            s[i - 1],
        ) {
            seq![s[i - 1]]
        } else {
            seq!['\\', s[i - 1]]
        }));
    }
}

} // verus!
