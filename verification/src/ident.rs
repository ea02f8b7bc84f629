//! The name sanitizer: turns an arbitrary schema-derived label into a token
//! that can stand as an identifier in generated source code.

use vstd::prelude::*;
use vstd::string::*;

use convert_case::Casing;

use crate::error::SanitizeError;

verus! {

/// What `convert_case` returns for a string converted to snake case:
/// a pure function of the characters alone.
pub uninterp spec fn snake_of(s: Seq<char>) -> Seq<char>;

/// Whether `syn` lexes the string as a single (possibly raw) identifier
/// token: a pure function of the characters alone.
pub uninterp spec fn parses_as_ident(s: Seq<char>) -> bool;

/// Replaces a literal dot by an underscore and leaves every other character
/// unchanged.
pub open spec fn dot_to_underscore(c: char) -> char {
    if c == '.' {
        '_'
    } else {
        c
    }
}

/// The string with every dot replaced by an underscore, so that dotted
/// namespaced names become flat identifiers.
pub open spec fn replace_dots(s: Seq<char>) -> Seq<char> {
    Seq::new(s.len(), |i: int| dot_to_underscore(s[i]))
}

/// Whether the string collides with a name the generator reserves for its
/// own methods and fields.
pub open spec fn is_reserved(s: Seq<char>) -> bool {
    s == "name"@ || s == "operation"@ || s == "builder"@
}

/// What `char::is_numeric` holds of characters beyond ASCII: whether the
/// character has a numeric Unicode general category.
pub uninterp spec fn numeric_beyond_ascii(c: char) -> bool;

/// Whether the character is numeric in the Unicode sense: among ASCII
/// characters exactly the decimal digits; beyond ASCII, the named property.
pub open spec fn is_numeric_char(c: char) -> bool {
    if c <= '\u{7f}' {
        '0' <= c && c <= '9'
    } else {
        numeric_beyond_ascii(c)
    }
}

/// Whether the string needs a leading underscore: it is reserved, or its
/// first character is numeric.
pub open spec fn needs_guard(s: Seq<char>) -> bool {
    is_reserved(s) || (s.len() > 0 && is_numeric_char(s[0]))
}

/// The string with an underscore prepended exactly when the reserved-word
/// guard asks for one.
pub open spec fn guarded(s: Seq<char>) -> Seq<char> {
    if needs_guard(s) {
        seq!['_'] + s
    } else {
        s
    }
}

/// The string wrapped in the raw-identifier escape.
pub open spec fn escaped(s: Seq<char>) -> Seq<char> {
    seq!['r', '#'] + s
}

/// The token the name sanitizer produces for a non-empty input: dots
/// flattened, the reserved-word guard applied, and the result escaped
/// whenever it does not parse as an identifier token on its own.
pub open spec fn sanitized(s: Seq<char>) -> Seq<char> {
    let g = guarded(replace_dots(s));
    if parses_as_ident(g) {
        g
    } else {
        escaped(g)
    }
}

/// The token with the raw-identifier escape stripped, where it carries one.
pub open spec fn unescaped(s: Seq<char>) -> Seq<char> {
    if s.len() >= 2 && s[0] == 'r' && s[1] == '#' {
        s.skip(2)
    } else {
        s
    }
}

/// A token fit to stand as a name in generated source code.
#[derive(Debug)]
pub struct Identifier {
    text: String,
}

impl View for Identifier {
    type V = Seq<char>;

    closed spec fn view(&self) -> Seq<char> {
        self.text@
    }
}

impl Identifier {
    /// The token's text, raw-identifier escape included where it carries one.
    pub fn as_str(&self) -> (r: &str)
        ensures
            r@ == self@,
    {
        self.text.as_str()
    }
}

/// Relies on `convert_case::Casing::to_case` with `Case::Snake`: the result
/// depends on the input characters alone.
#[verifier::external_body]
fn to_snake_case(name: &str) -> (r: String)
    ensures
        r@ == snake_of(name@),
{
    name.to_case(convert_case::Case::Snake)
}

/// Relies on `syn::parse_str::<proc_macro2::Ident>`: it succeeds exactly on
/// the strings that lex as one identifier token (raw identifiers included,
/// bare keywords and the lone underscore excluded, surrounding whitespace
/// tolerated), a function of the characters alone.
#[verifier::external_body]
fn is_ident_token(name: &str) -> (r: bool)
    ensures
        r == parses_as_ident(name@),
{
    syn::parse_str::<proc_macro2::Ident>(name).is_ok()
}

/// Relies on `char::is_numeric`: true exactly for the characters with a
/// numeric Unicode general category; among ASCII characters those are
/// exactly the decimal digits.
#[verifier::external_body]
fn char_is_numeric(c: char) -> (r: bool)
    ensures
        r == is_numeric_char(c),
        c > '\u{7f}' ==> r == numeric_beyond_ascii(c),
{
    c.is_numeric()
}

/// Relies on `String::push`: appends the character at the end of the string.
#[verifier::external_body]
fn push_char(s: &mut String, c: char)
    ensures
        final(s)@ == old(s)@.push(c),
{
    s.push(c);
}

/// Builds the copy of the string that has every dot replaced by an
/// underscore.
fn replace_dots_exec(name: &str) -> (r: String)
    ensures
        r@ == replace_dots(name@),
{
    let n: usize = name.unicode_len();
    let mut out = String::new();
    let mut i: usize = 0;
    while i < n
        invariant
            i <= n,
            n == name@.len(),
            out@ == replace_dots(name@).take(i as int),
        decreases n - i,
    {
        let c = name.get_char(i);
        if c == '.' {
            push_char(&mut out, '_');
        } else {
            push_char(&mut out, c);
        }
        proof {
            assert(replace_dots(name@).take(i + 1) =~= replace_dots(name@).take(i as int).push(
                dot_to_underscore(name@[i as int]),
            ));
        }
        i = i + 1;
    }
    proof {
        assert(replace_dots(name@).take(n as int) =~= replace_dots(name@));
    }
    out
}

/// Compares two string slices by their characters.
fn str_equal(a: &str, b: &str) -> (r: bool)
    ensures
        r == (a@ == b@),
{
    let sa = String::from_str(a);
    let sb = String::from_str(b);
    sa == sb
}

/// Whether the string collides with a name the generator reserves.
fn is_reserved_exec(s: &str) -> (r: bool)
    ensures
        r == is_reserved(s@),
{
    str_equal(s, "name") || str_equal(s, "operation") || str_equal(s, "builder")
}

/// The sanitized token never contains a dot: every dot of the input is
/// flattened to an underscore, and the guard and escape steps add none.
pub proof fn lemma_no_dots(s: Seq<char>)
    requires
        s.len() > 0,
    ensures
        forall|i: int| 0 <= i < sanitized(s).len() ==> sanitized(s)[i] != '.',
{
    let d = replace_dots(s);
    let g = guarded(d);
    let t = sanitized(s);
    assert forall|i: int| 0 <= i < g.len() implies g[i] != '.' by {
        if needs_guard(d) {
            if i > 0 {
                assert(g[i] == d[i - 1]);
            }
        }
    }
    assert forall|i: int| 0 <= i < t.len() implies t[i] != '.' by {
        if !parses_as_ident(g) {
            if i >= 2 {
                assert(t[i] == g[i - 2]);
            }
        }
    }
}

/// The sanitized token, unescaped, never equals a reserved name, for every
/// input that does not itself begin with the raw-identifier escape.
pub proof fn lemma_reserved_never_returned(s: Seq<char>)
    requires
        s.len() > 0,
        !(s.len() >= 2 && s[0] == 'r' && s[1] == '#'),
    ensures
        !is_reserved(unescaped(sanitized(s))),
{
    reveal_strlit("name");
    reveal_strlit("operation");
    reveal_strlit("builder");
    let d = replace_dots(s);
    let g = guarded(d);
    let t = sanitized(s);
    assert(!is_reserved(g)) by {
        if needs_guard(d) {
            assert(g[0] == '_');
        }
    }
    if parses_as_ident(g) {
        assert(unescaped(t) == g) by {
            if needs_guard(d) {
                assert(g[0] == '_');
            } else {
                if s.len() >= 2 {
                    assert(d[0] == dot_to_underscore(s[0]) && d[1] == dot_to_underscore(s[1]));
                }
            }
        }
    } else {
        assert(t[0] == 'r' && t[1] == '#');
        assert(unescaped(t) =~= g);
    }
}

/// Sanitizing is idempotent on its own output: a token the sanitizer
/// produced comes back unchanged from a second pass, whenever the first
/// pass settled on a token that parses as an identifier, plain or escaped.
pub proof fn lemma_idempotent(s: Seq<char>)
    requires
        s.len() > 0,
    ensures
        ({
            let g = guarded(replace_dots(s));
            (parses_as_ident(g) || parses_as_ident(escaped(g))) ==> sanitized(sanitized(s))
                == sanitized(s)
        }),
{
    reveal_strlit("name");
    reveal_strlit("operation");
    reveal_strlit("builder");
    let d = replace_dots(s);
    let g = guarded(d);
    let t = sanitized(s);
    if parses_as_ident(g) || parses_as_ident(escaped(g)) {
        lemma_no_dots(s);
        assert(replace_dots(t) =~= t);
        assert(!is_reserved(t)) by {
            if !parses_as_ident(g) {
                assert(t[1] == '#');
            } else {
                if needs_guard(d) {
                    assert(t[0] == '_');
                }
            }
        }
        assert(!is_numeric_char(t[0])) by {
            if parses_as_ident(g) && !needs_guard(d) {
                assert(t[0] == d[0]);
            }
        }
        assert(guarded(replace_dots(t)) == t);
        if parses_as_ident(g) {
            assert(sanitized(t) == t);
        } else {
            assert(t == escaped(g));
            assert(sanitized(t) == t);
        }
    }
}

/// Sanitizes a label that is already word-separated: flattens dots, guards
/// reserved names and leading numerals with an underscore, and escapes the
/// token whenever it does not parse as an identifier on its own.  An empty
/// label is rejected.
pub fn sanitize_name(name: &str) -> (r: Result<Identifier, SanitizeError>)
    ensures
        name@.len() > 0 ==> (r matches Ok(id) && id@ == sanitized(name@)),
        name@.len() == 0 ==> (r matches Err(e) && e == SanitizeError::EmptyName),
{
    if name.is_empty() {
        return Err(SanitizeError::EmptyName);
    }
    let replaced = replace_dots_exec(name);
    let needs = is_reserved_exec(replaced.as_str()) || {
        let c = replaced.as_str().get_char(0);
        char_is_numeric(c)
    };
    let g: String = if needs {
        let mut t = String::from_str("_");
        t.append(replaced.as_str());
        proof {
            reveal_strlit("_");
            assert(t@ =~= guarded(replace_dots(name@)));
        }
        t
    } else {
        replaced
    };
    if is_ident_token(g.as_str()) {
        Ok(Identifier { text: g })
    } else {
        let mut e = String::from_str("r#");
        e.append(g.as_str());
        proof {
            reveal_strlit("r#");
            assert(e@ =~= escaped(guarded(replace_dots(name@))));
        }
        Ok(Identifier { text: e })
    }
}

/// Sanitizes an arbitrary label: converts it to snake case first, then
/// applies the same cleanup as [`sanitize_name`].  An empty label, and a
/// label whose snake-case form is empty, are rejected.
pub fn sanitize_snake_case_name(name: &str) -> (r: Result<Identifier, SanitizeError>)
    ensures
        r matches Ok(id) ==> name@.len() > 0 && snake_of(name@).len() > 0 && id@ == sanitized(
            snake_of(name@),
        ),
        r matches Err(e) ==> e == SanitizeError::EmptyName && (name@.len() == 0 || snake_of(
            name@,
        ).len() == 0),
{
    if name.is_empty() {
        return Err(SanitizeError::EmptyName);
    }
    let snake = to_snake_case(name);
    sanitize_name(snake.as_str())
}

} // verus!
