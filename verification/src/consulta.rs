use vstd::prelude::*;

use crate::numeros::{decimal, decimal_de, entero_de, entero_desde, lema_entero_de_decimal};
use crate::texto::{cadena_de, caracteres, tramo};

verus! {

/// Filters of an entry query (the query string of the REST API and of the browser).
#[derive(Clone, Debug, PartialEq)]
pub struct EntryQuery {
    /// Application slug.
    pub application: Option<String>,
    /// From date (YYYY-MM-DD, inclusive).
    pub from: Option<String>,
    /// To date (YYYY-MM-DD, inclusive).
    pub to: Option<String>,
    /// Exact tag.
    pub tag: Option<String>,
    /// Full text search.
    pub q: Option<String>,
    /// Page size (50 by default, at most 200).
    pub limit: Option<i64>,
    /// Pagination cursor: the largest id of the previous page.
    pub cursor: Option<i64>,
    /// Export state: `Some(true)` only exported, `Some(false)` only pending, `None` all.
    pub exported: Option<bool>,
}

/// The filters as values.
pub struct ConsultaVista {
    pub application: Option<Seq<char>>,
    pub from: Option<Seq<char>>,
    pub to: Option<Seq<char>>,
    pub tag: Option<Seq<char>>,
    pub q: Option<Seq<char>>,
    pub limit: Option<i64>,
    pub cursor: Option<i64>,
    pub exported: Option<bool>,
}

impl View for EntryQuery {
    type V = ConsultaVista;

    open spec fn view(&self) -> ConsultaVista {
        ConsultaVista {
            application: self.application.deep_view(),
            from: self.from.deep_view(),
            to: self.to.deep_view(),
            tag: self.tag.deep_view(),
            q: self.q.deep_view(),
            limit: self.limit,
            cursor: self.cursor,
            exported: self.exported,
        }
    }
}

/// The query without any filter.
pub open spec fn consulta_vacia() -> ConsultaVista {
    ConsultaVista {
        application: None,
        from: None,
        to: None,
        tag: None,
        q: None,
        limit: None,
        cursor: None,
        exported: None,
    }
}

impl Default for EntryQuery {
    fn default() -> (r: EntryQuery)
        ensures
            r@ == consulta_vacia(),
    {
        EntryQuery {
            application: None,
            from: None,
            to: None,
            tag: None,
            q: None,
            limit: None,
            cursor: None,
            exported: None,
        }
    }
}

/// How a boolean is written in a query string.
pub open spec fn texto_bool(b: bool) -> Seq<char> {
    if b {
        "true"@
    } else {
        "false"@
    }
}

/// `str::parse::<bool>`.
pub open spec fn bool_de(s: Seq<char>) -> Option<bool> {
    if s == "true"@ {
        Some(true)
    } else if s == "false"@ {
        Some(false)
    } else {
        None
    }
}

/// A pair of the query string when its value is there.
pub open spec fn con_par(
    ps: Seq<(Seq<char>, Seq<char>)>,
    clave: Seq<char>,
    valor: Option<Seq<char>>,
) -> Seq<(Seq<char>, Seq<char>)> {
    match valor {
        Some(v) => ps.push((clave, v)),
        None => ps,
    }
}

/// The decimal text of an optional integer.
pub open spec fn texto_entero(n: Option<i64>) -> Option<Seq<char>> {
    match n {
        Some(x) => Some(decimal(x as int)),
        None => None,
    }
}

/// The text of an optional boolean.
pub open spec fn texto_opcion_bool(b: Option<bool>) -> Option<Seq<char>> {
    match b {
        Some(x) => Some(texto_bool(x)),
        None => None,
    }
}

/// The (key, value) pairs of a query string, in the order of the fields, the absent
/// filters left out.
pub open spec fn pares_de(q: ConsultaVista) -> Seq<(Seq<char>, Seq<char>)> {
    let p0 = Seq::<(Seq<char>, Seq<char>)>::empty();
    let p1 = con_par(p0, "application"@, q.application);
    let p2 = con_par(p1, "from"@, q.from);
    let p3 = con_par(p2, "to"@, q.to);
    let p4 = con_par(p3, "tag"@, q.tag);
    let p5 = con_par(p4, "q"@, q.q);
    let p6 = con_par(p5, "limit"@, texto_entero(q.limit));
    let p7 = con_par(p6, "cursor"@, texto_entero(q.cursor));
    con_par(p7, "exported"@, texto_opcion_bool(q.exported))
}

/// One (key, value) pair read into the filters: an unknown key is ignored; a key
/// seen twice, or a number or boolean that does not parse, is an error.
pub open spec fn aplicar_par(c: ConsultaVista, par: (Seq<char>, Seq<char>)) -> Option<ConsultaVista> {
    let (k, v) = par;
    if k == "application"@ {
        if c.application is Some { None } else { Some(ConsultaVista { application: Some(v), ..c }) }
    } else if k == "from"@ {
        if c.from is Some { None } else { Some(ConsultaVista { from: Some(v), ..c }) }
    } else if k == "to"@ {
        if c.to is Some { None } else { Some(ConsultaVista { to: Some(v), ..c }) }
    } else if k == "tag"@ {
        if c.tag is Some { None } else { Some(ConsultaVista { tag: Some(v), ..c }) }
    } else if k == "q"@ {
        if c.q is Some { None } else { Some(ConsultaVista { q: Some(v), ..c }) }
    } else if k == "limit"@ {
        if c.limit is Some { None } else {
            match entero_de(v) {
                Some(n) => Some(ConsultaVista { limit: Some(n), ..c }),
                None => None,
            }
        }
    } else if k == "cursor"@ {
        if c.cursor is Some { None } else {
            match entero_de(v) {
                Some(n) => Some(ConsultaVista { cursor: Some(n), ..c }),
                None => None,
            }
        }
    } else if k == "exported"@ {
        if c.exported is Some { None } else {
            match bool_de(v) {
                Some(b) => Some(ConsultaVista { exported: Some(b), ..c }),
                None => None,
            }
        }
    } else {
        Some(c)
    }
}

/// The filters read from a list of pairs, or `None` when one of them is an error.
pub open spec fn consulta_de_pares(ps: Seq<(Seq<char>, Seq<char>)>) -> Option<ConsultaVista>
    decreases ps.len(),
{
    if ps.len() == 0 {
        Some(consulta_vacia())
    } else {
        match consulta_de_pares(ps.drop_last()) {
            Some(c) => aplicar_par(c, ps.last()),
            None => None,
        }
    }
}


proof fn lema_claves_distintas()
    ensures
        "application"@.len() == 11,
        "from"@.len() == 4,
        "to"@.len() == 2,
        "tag"@.len() == 3,
        "q"@.len() == 1,
        "limit"@.len() == 5,
        "cursor"@.len() == 6,
        "exported"@.len() == 8,
        bool_de(texto_bool(true)) == Some(true),
        bool_de(texto_bool(false)) == Some(false),
{
    reveal_strlit("application");
    reveal_strlit("from");
    reveal_strlit("to");
    reveal_strlit("tag");
    reveal_strlit("q");
    reveal_strlit("limit");
    reveal_strlit("cursor");
    reveal_strlit("exported");
    reveal_strlit("true");
    reveal_strlit("false");
    assert("true"@ != "false"@) by {
        assert("true"@.len() != "false"@.len());
    }
}

/// Reading back the pairs of a query gives the same query.
#[verifier::spinoff_prover]
#[verifier::rlimit(60)]
pub proof fn lema_pares_ida_y_vuelta(q: ConsultaVista)
    ensures
        consulta_de_pares(pares_de(q)) == Some(q),
{
    lema_claves_distintas();
    let p0 = Seq::<(Seq<char>, Seq<char>)>::empty();
    let p1 = con_par(p0, "application"@, q.application);
    let p2 = con_par(p1, "from"@, q.from);
    let p3 = con_par(p2, "to"@, q.to);
    let p4 = con_par(p3, "tag"@, q.tag);
    let p5 = con_par(p4, "q"@, q.q);
    let p6 = con_par(p5, "limit"@, texto_entero(q.limit));
    let p7 = con_par(p6, "cursor"@, texto_entero(q.cursor));
    let p8 = con_par(p7, "exported"@, texto_opcion_bool(q.exported));
    let c0 = consulta_vacia();
    let c1 = ConsultaVista { application: q.application, ..c0 };
    let c2 = ConsultaVista { from: q.from, ..c1 };
    let c3 = ConsultaVista { to: q.to, ..c2 };
    let c4 = ConsultaVista { tag: q.tag, ..c3 };
    let c5 = ConsultaVista { q: q.q, ..c4 };
    let c6 = ConsultaVista { limit: q.limit, ..c5 };
    let c7 = ConsultaVista { cursor: q.cursor, ..c6 };
    let c8 = ConsultaVista { exported: q.exported, ..c7 };
    assert(consulta_de_pares(p0) == Some(c0));
    assert(consulta_de_pares(p1) == Some(c1)) by {
        if q.application is Some {
            assert(p1.drop_last() =~= p0);
        }
    }
    assert(consulta_de_pares(p2) == Some(c2)) by {
        if q.from is Some {
            assert(p2.drop_last() =~= p1);
        }
    }
    assert(consulta_de_pares(p3) == Some(c3)) by {
        if q.to is Some {
            assert(p3.drop_last() =~= p2);
        }
    }
    assert(consulta_de_pares(p4) == Some(c4)) by {
        if q.tag is Some {
            assert(p4.drop_last() =~= p3);
        }
    }
    assert(consulta_de_pares(p5) == Some(c5)) by {
        if q.q is Some {
            assert(p5.drop_last() =~= p4);
        }
    }
    assert(consulta_de_pares(p6) == Some(c6)) by {
        if q.limit is Some {
            assert(p6.drop_last() =~= p5);
            lema_entero_de_decimal(q.limit->0);
        }
    }
    assert(consulta_de_pares(p7) == Some(c7)) by {
        if q.cursor is Some {
            assert(p7.drop_last() =~= p6);
            lema_entero_de_decimal(q.cursor->0);
        }
    }
    assert(consulta_de_pares(p8) == Some(c8)) by {
        if q.exported is Some {
            assert(p8.drop_last() =~= p7);
        }
    }
    assert(c8 == q);
}


/// Name for what `serde_urlencoded::to_string` writes for a list of (key, value) pairs.
pub uninterp spec fn urlencoded(pares: Seq<(Seq<char>, Seq<char>)>) -> Seq<char>;

/// Name for what `serde_urlencoded::from_str::<Vec<(String, String)>>` reads from a text.
pub uninterp spec fn pares_urlencoded(s: Seq<char>) -> Option<Seq<(Seq<char>, Seq<char>)>>;

/// The characters of `application/x-www-form-urlencoded` text: the bytes kept as they
/// are, `+` for spaces, `%` and uppercase hexadecimal digits, and the `&`, `=` separators.
pub open spec fn es_caracter_urlencoded(c: char) -> bool {
    ('0' <= c && c <= '9') || ('a' <= c && c <= 'z') || ('A' <= c && c <= 'Z') || c == '*' || c
        == '-' || c == '.' || c == '_' || c == '+' || c == '%' || c == '&' || c == '='
}

/// Calls `serde_urlencoded::to_string` on a list of string pairs. Claims: the text is
/// the named function of the pairs; serialising string pairs does not fail (the pair
/// serializer accepts any two-string tuple); the text only holds form-urlencoded
/// characters; no pairs give the empty text; and `serde_urlencoded::from_str` reads
/// the same pairs back from it (form_urlencoded percent-encodes every byte but the
/// unreserved ones, writes spaces as `+`, and its parser undoes both).
#[verifier::external_body]
fn codificar_pares(pares: &Vec<(String, String)>) -> (r: Option<String>)
    ensures
        r is Some,
        r matches Some(s) ==> s@ == urlencoded(pares.deep_view()),
        r matches Some(s) ==> pares_urlencoded(s@) == Some(pares.deep_view()),
        r matches Some(s) ==> forall|i: int|
            0 <= i < s@.len() ==> #[trigger] es_caracter_urlencoded(s@[i]),
        r matches Some(s) ==> (pares@.len() == 0 ==> s@.len() == 0),
{
    serde_urlencoded::to_string(pares).ok()
}

/// Calls `serde_urlencoded::from_str::<Vec<(String, String)>>`. Claims only that the
/// result is the named function of the text.
#[verifier::external_body]
fn leer_pares(s: &str) -> (r: Option<Vec<(String, String)>>)
    ensures
        r.deep_view() == pares_urlencoded(s@),
{
    serde_urlencoded::from_str::<Vec<(String, String)>>(s).ok()
}

/// `trim_start_matches('?')`.
pub open spec fn sin_interrogaciones(s: Seq<char>) -> Seq<char>
    decreases s.len(),
{
    if s.len() > 0 && s[0] == '?' {
        sin_interrogaciones(s.drop_first())
    } else {
        s
    }
}

/// The filters a query string gives: those of its pairs, or no filter at all when
/// the text cannot be read or one of its pairs is an error.
pub open spec fn consulta_leida(s: Seq<char>) -> ConsultaVista {
    match pares_urlencoded(sin_interrogaciones(s)) {
        Some(ps) => match consulta_de_pares(ps) {
            Some(c) => c,
            None => consulta_vacia(),
        },
        None => consulta_vacia(),
    }
}

/// The same text, as an owned `String`.
pub fn texto(s: &str) -> (r: String)
    ensures
        r@ == s@,
{
    s.to_owned()
}

/// Whether two texts are equal.
pub fn mismo_texto(a: &str, b: &str) -> (r: bool)
    ensures
        r == (a@ == b@),
{
    let x = caracteres(a);
    let y = caracteres(b);
    if x.len() != y.len() {
        return false;
    }
    let n = x.len();
    let mut i: usize = 0;
    while i < n
        invariant
            i <= n == x@.len() == y@.len(),
            x@ == a@,
            y@ == b@,
            forall|j: int| 0 <= j < i ==> x@[j] == y@[j],
        decreases n - i,
    {
        if x[i] != y[i] {
            assert(x@[i as int] != y@[i as int]);
            return false;
        }
        i = i + 1;
    }
    assert(x@ =~= y@);
    true
}

fn anadir_par(v: &mut Vec<(String, String)>, clave: &str, valor: String)
    ensures
        final(v).deep_view() == old(v).deep_view().push((clave@, valor@)),
{
    let ghost antes = v.deep_view();
    v.push((texto(clave), valor));
    assert(v.deep_view() =~= antes.push((clave@, valor@)));
}

fn texto_de_bool(b: bool) -> (r: String)
    ensures
        r@ == texto_bool(b),
{
    if b {
        texto("true")
    } else {
        texto("false")
    }
}

/// The (key, value) pairs of the filters that are present, in field order.
fn pares_de_consulta(q: &EntryQuery) -> (r: Vec<(String, String)>)
    ensures
        r.deep_view() == pares_de(q@),
{
    let mut v: Vec<(String, String)> = Vec::new();
    assert(v.deep_view() =~= Seq::<(Seq<char>, Seq<char>)>::empty());
    if let Some(a) = &q.application {
        anadir_par(&mut v, "application", a.clone());
    }
    if let Some(a) = &q.from {
        anadir_par(&mut v, "from", a.clone());
    }
    if let Some(a) = &q.to {
        anadir_par(&mut v, "to", a.clone());
    }
    if let Some(a) = &q.tag {
        anadir_par(&mut v, "tag", a.clone());
    }
    if let Some(a) = &q.q {
        anadir_par(&mut v, "q", a.clone());
    }
    if let Some(n) = q.limit {
        anadir_par(&mut v, "limit", cadena_de(&decimal_de(n)));
    }
    if let Some(n) = q.cursor {
        anadir_par(&mut v, "cursor", cadena_de(&decimal_de(n)));
    }
    if let Some(b) = q.exported {
        anadir_par(&mut v, "exported", texto_de_bool(b));
    }
    v
}

proof fn lema_sin_interrogacion_inicial(e: Seq<char>)
    requires
        forall|i: int| 0 <= i < e.len() ==> #[trigger] es_caracter_urlencoded(e[i]),
    ensures
        sin_interrogaciones(seq!['?'] + e) == e,
{
    let s = seq!['?'] + e;
    assert(s.drop_first() =~= e);
    if e.len() > 0 {
        assert(es_caracter_urlencoded(e[0]));
    }
    assert(sin_interrogaciones(e) == e);
    assert(s[0] == '?');
}

/// Filters to query string, without the `?`; empty when there is no filter.
///
/// The text, read back by `query_a` (with or without the `?`), gives the same filters.
pub fn query_de(q: &EntryQuery) -> (r: String)
    ensures
        r@ == urlencoded(pares_de(q@)),
        q@ == consulta_vacia() ==> r@.len() == 0,
        consulta_leida(seq!['?'] + r@) == q@,
        consulta_leida(r@) == q@,
{
    let pares = pares_de_consulta(q);
    let r = match codificar_pares(&pares) {
        Some(s) => s,
        None => String::new(),
    };
    proof {
        lema_pares_ida_y_vuelta(q@);
        lema_sin_interrogacion_inicial(r@);
        if r@.len() > 0 {
            assert(es_caracter_urlencoded(r@[0]));
        }
        if q@ == consulta_vacia() {
            assert(pares@.len() == 0) by {
                assert(pares.deep_view().len() == 0);
            }
        }
    }
    r
}


proof fn lema_error_se_propaga(ps: Seq<(Seq<char>, Seq<char>)>, j: int)
    requires
        0 <= j <= ps.len(),
        consulta_de_pares(ps.take(j)) is None,
    ensures
        consulta_de_pares(ps) is None,
    decreases ps.len() - j,
{
    if j < ps.len() {
        assert(ps.take(j + 1).drop_last() =~= ps.take(j));
        lema_error_se_propaga(ps, j + 1);
    } else {
        assert(ps.take(j) =~= ps);
    }
}

fn leer_entero(v: &String) -> (r: Option<i64>)
    ensures
        r == entero_de(v@),
{
    entero_desde(&caracteres(v.as_str()))
}

/// Reads one (key, value) pair into the filters; `false` when it is an error.
fn aplicar_par_exec(c: &mut EntryQuery, k: &str, v: &String) -> (ok: bool)
    ensures
        ok ==> aplicar_par(old(c)@, (k@, v@)) == Some(final(c)@),
        !ok ==> aplicar_par(old(c)@, (k@, v@)) is None,
{
    if mismo_texto(k, "application") {
        if c.application.is_some() {
            return false;
        }
        c.application = Some(v.clone());
    } else if mismo_texto(k, "from") {
        if c.from.is_some() {
            return false;
        }
        c.from = Some(v.clone());
    } else if mismo_texto(k, "to") {
        if c.to.is_some() {
            return false;
        }
        c.to = Some(v.clone());
    } else if mismo_texto(k, "tag") {
        if c.tag.is_some() {
            return false;
        }
        c.tag = Some(v.clone());
    } else if mismo_texto(k, "q") {
        if c.q.is_some() {
            return false;
        }
        c.q = Some(v.clone());
    } else if mismo_texto(k, "limit") {
        if c.limit.is_some() {
            return false;
        }
        match leer_entero(v) {
            Some(x) => {
                c.limit = Some(x);
            },
            None => {
                return false;
            },
        }
    } else if mismo_texto(k, "cursor") {
        if c.cursor.is_some() {
            return false;
        }
        match leer_entero(v) {
            Some(x) => {
                c.cursor = Some(x);
            },
            None => {
                return false;
            },
        }
    } else if mismo_texto(k, "exported") {
        if c.exported.is_some() {
            return false;
        }
        if mismo_texto(v.as_str(), "true") {
            c.exported = Some(true);
        } else if mismo_texto(v.as_str(), "false") {
            c.exported = Some(false);
        } else {
            return false;
        }
    }
    true
}

/// The filters read from a list of pairs, or `None` when one of them is an error.
fn consulta_desde_pares(ps: &Vec<(String, String)>) -> (r: Option<EntryQuery>)
    ensures
        match r {
            Some(c) => consulta_de_pares(ps.deep_view()) == Some(c@),
            None => consulta_de_pares(ps.deep_view()) is None,
        },
{
    let n = ps.len();
    let mut c = EntryQuery::default();
    let mut i: usize = 0;
    assert(ps.deep_view().take(0) =~= Seq::<(Seq<char>, Seq<char>)>::empty());
    while i < n
        invariant
            i <= n == ps@.len(),
            consulta_de_pares(ps.deep_view().take(i as int)) == Some(c@),
        decreases n - i,
    {
        let k = ps[i].0.as_str();
        let v = &ps[i].1;
        let ghost par = ps.deep_view()[i as int];
        assert(par == (k@, v@));
        assert(ps.deep_view().take(i + 1).drop_last() =~= ps.deep_view().take(i as int));
        assert(ps.deep_view().take(i + 1).last() == par);
        if !aplicar_par_exec(&mut c, k, v) {
            proof {
                lema_error_se_propaga(ps.deep_view(), i + 1);
            }
            return None;
        }
        i = i + 1;
    }
    assert(ps.deep_view().take(n as int) =~= ps.deep_view());
    Some(c)
}

/// Query string to filters. Takes the leading `?` and forgives what it does not
/// understand: unknown keys are ignored, and a text that cannot be read, a repeated
/// filter or a number that does not parse give no filter at all.
pub fn query_a(s: &str) -> (r: EntryQuery)
    ensures
        r@ == consulta_leida(s@),
{
    let cs = caracteres(s);
    let n = cs.len();
    let mut i: usize = 0;
    assert(cs@.subrange(0, n as int) =~= cs@);
    while i < n && cs[i] == '?'
        invariant
            i <= n == cs@.len(),
            sin_interrogaciones(cs@) == sin_interrogaciones(cs@.subrange(i as int, n as int)),
        decreases n - i,
    {
        assert(cs@.subrange(i as int, n as int).drop_first() =~= cs@.subrange(i + 1, n as int));
        i = i + 1;
    }
    assert(cs@.subrange(0, n as int) =~= cs@);
    let resto = cadena_de(&tramo(&cs, i, n));
    assert(resto@ == sin_interrogaciones(s@)) by {
        assert(cs@.subrange(0, n as int) =~= cs@);
    }
    match leer_pares(resto.as_str()) {
        Some(ps) => match consulta_desde_pares(&ps) {
            Some(c) => c,
            None => EntryQuery::default(),
        },
        None => EntryQuery::default(),
    }
}

}
