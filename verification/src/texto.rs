use vstd::prelude::*;

verus! {

/// The characters of a string slice, in order.
pub fn caracteres(s: &str) -> (r: Vec<char>)
    ensures
        r@ == s@,
{
    let mut r: Vec<char> = Vec::new();
    for c in it: s.chars()
        invariant
            r@ == it.seq().take(it.index() as int),
    {
        r.push(c);
    }
    r
}

/// Builds a `String` holding exactly the given characters (`FromIterator<char>` of std).
#[verifier::external_body]
pub(crate) fn cadena_de(v: &Vec<char>) -> (r: String)
    ensures
        r@ == v@,
{
    v.iter().collect()
}

/// `char::is_ascii_alphanumeric`.
pub open spec fn es_alfanumerico(c: char) -> bool {
    ('0' <= c && c <= '9') || ('a' <= c && c <= 'z') || ('A' <= c && c <= 'Z')
}

/// `char::to_ascii_lowercase`: `A..=Z` become `a..=z`, everything else is kept.
pub open spec fn minuscula(c: char) -> char {
    if 'A' <= c && c <= 'Z' {
        ((c as int) + 32) as char
    } else {
        c
    }
}

/// Whether a character is an ASCII letter or digit.
pub fn es_alfanumerico_exec(c: char) -> (r: bool)
    ensures
        r == es_alfanumerico(c),
{
    ('0' <= c && c <= '9') || ('a' <= c && c <= 'z') || ('A' <= c && c <= 'Z')
}

/// The ASCII lowercase of a character.
pub fn minuscula_exec(c: char) -> (r: char)
    ensures
        r == minuscula(c),
{
    if 'A' <= c && c <= 'Z' {
        let b: u8 = (c as u32) as u8;
        assert(b as int == c as int);
        ((b + 32) as char)
    } else {
        c
    }
}

/// `char::is_whitespace`: the Unicode `White_Space` characters.
pub open spec fn es_espacio(c: char) -> bool {
    ('\u{9}' <= c && c <= '\u{d}') || c == ' ' || c == '\u{85}' || c == '\u{a0}' || c
        == '\u{1680}' || ('\u{2000}' <= c && c <= '\u{200a}') || c == '\u{2028}' || c
        == '\u{2029}' || c == '\u{202f}' || c == '\u{205f}' || c == '\u{3000}'
}

/// Whether a character is Unicode whitespace.
pub fn es_espacio_exec(c: char) -> (r: bool)
    ensures
        r == es_espacio(c),
{
    ('\u{9}' <= c && c <= '\u{d}') || c == ' ' || c == '\u{85}' || c == '\u{a0}' || c
        == '\u{1680}' || ('\u{2000}' <= c && c <= '\u{200a}') || c == '\u{2028}' || c
        == '\u{2029}' || c == '\u{202f}' || c == '\u{205f}' || c == '\u{3000}'
}

/// `str::trim_start`: the text without its leading whitespace.
pub open spec fn sin_espacio_inicial(s: Seq<char>) -> Seq<char>
    decreases s.len(),
{
    if s.len() > 0 && es_espacio(s[0]) {
        sin_espacio_inicial(s.drop_first())
    } else {
        s
    }
}

/// `str::trim_end`: the text without its trailing whitespace.
pub open spec fn sin_espacio_final(s: Seq<char>) -> Seq<char>
    decreases s.len(),
{
    if s.len() > 0 && es_espacio(s.last()) {
        sin_espacio_final(s.drop_last())
    } else {
        s
    }
}

/// `str::trim`.
pub open spec fn recortado(s: Seq<char>) -> Seq<char> {
    sin_espacio_final(sin_espacio_inicial(s))
}

/// The characters `s[a..b]`.
pub fn tramo(s: &Vec<char>, a: usize, b: usize) -> (r: Vec<char>)
    requires
        a <= b <= s@.len(),
    ensures
        r@ == s@.subrange(a as int, b as int),
{
    let mut r: Vec<char> = Vec::new();
    let mut i = a;
    while i < b
        invariant
            a <= i <= b <= s@.len(),
            r@ == s@.subrange(a as int, i as int),
        decreases b - i,
    {
        r.push(s[i]);
        i = i + 1;
        assert(r@ =~= s@.subrange(a as int, i as int));
    }
    r
}

proof fn lema_sin_espacio_inicial_tramo(s: Seq<char>, i: int)
    requires
        0 <= i <= s.len(),
        forall|j: int| 0 <= j < i ==> es_espacio(#[trigger] s[j]),
    ensures
        sin_espacio_inicial(s) == sin_espacio_inicial(s.subrange(i, s.len() as int)),
    decreases i,
{
    if i > 0 {
        assert(es_espacio(s[0]));
        let t = s.drop_first();
        assert forall|j: int| 0 <= j < i - 1 implies es_espacio(#[trigger] t[j]) by {
            assert(t[j] == s[j + 1]);
        }
        lema_sin_espacio_inicial_tramo(t, i - 1);
        assert(t.subrange(i - 1, t.len() as int) =~= s.subrange(i, s.len() as int));
    } else {
        assert(s.subrange(0, s.len() as int) =~= s);
    }
}

proof fn lema_sin_espacio_final_tramo(s: Seq<char>, j: int)
    requires
        0 <= j <= s.len(),
        forall|k: int| j <= k < s.len() ==> es_espacio(#[trigger] s[k]),
    ensures
        sin_espacio_final(s) == sin_espacio_final(s.subrange(0, j)),
    decreases s.len() - j,
{
    if j < s.len() {
        assert(es_espacio(s[s.len() - 1]));
        let t = s.drop_last();
        assert forall|k: int| j <= k < t.len() implies es_espacio(#[trigger] t[k]) by {
            assert(t[k] == s[k]);
        }
        lema_sin_espacio_final_tramo(t, j);
        assert(t.subrange(0, j) =~= s.subrange(0, j));
    } else {
        assert(s.subrange(0, j) =~= s);
    }
}

/// `str::trim_start` on a character vector.
pub fn quitar_espacio_inicial(s: &Vec<char>) -> (r: Vec<char>)
    ensures
        r@ == sin_espacio_inicial(s@),
{
    let n = s.len();
    let mut i: usize = 0;
    while i < n && es_espacio_exec(s[i])
        invariant
            i <= n == s@.len(),
            forall|j: int| 0 <= j < i ==> es_espacio(#[trigger] s@[j]),
        decreases n - i,
    {
        i = i + 1;
    }
    proof {
        lema_sin_espacio_inicial_tramo(s@, i as int);
    }
    tramo(s, i, n)
}

/// `str::trim_end` on a character vector.
pub fn quitar_espacio_final(s: &Vec<char>) -> (r: Vec<char>)
    ensures
        r@ == sin_espacio_final(s@),
{
    let n = s.len();
    let mut j: usize = n;
    while j > 0 && es_espacio_exec(s[j - 1])
        invariant
            j <= n == s@.len(),
            forall|k: int| j <= k < n ==> es_espacio(#[trigger] s@[k]),
        decreases j,
    {
        j = j - 1;
    }
    proof {
        lema_sin_espacio_final_tramo(s@, j as int);
    }
    tramo(s, 0, j)
}

/// `str::trim` on a character vector.
pub fn recortar(s: &Vec<char>) -> (r: Vec<char>)
    ensures
        r@ == recortado(s@),
{
    let a = quitar_espacio_inicial(s);
    quitar_espacio_final(&a)
}

/// A vector of characters seen element by element is its plain view.
pub proof fn lema_vista_profunda(v: &Vec<char>)
    ensures
        v.deep_view() == v@,
{
    assert(v.deep_view() =~= v@);
}

}
