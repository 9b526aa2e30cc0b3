use vstd::prelude::*;

use crate::consulta::{texto, EntryQuery};
use crate::error::AppError;
use crate::modelo::{EntryPage, EntrySummary, NewEntry};
use crate::slug::{slug, slugify};
use crate::texto::{cadena_de, caracteres, recortado, recortar};

verus! {

/// A present filter: the text trimmed, when something is left.
pub open spec fn no_vacio(o: Option<Seq<char>>) -> Option<Seq<char>> {
    match o {
        Some(s) => if recortado(s).len() > 0 {
            Some(recortado(s))
        } else {
            None
        },
        None => None,
    }
}

/// A filter that counts: its text trimmed, or `None` when it is absent or blank.
pub fn non_empty(opt: &Option<String>) -> (r: Option<String>)
    ensures
        r.deep_view() == no_vacio(opt.deep_view()),
{
    match opt {
        Some(s) => {
            let t = recortar(&caracteres(s.as_str()));
            if t.len() > 0 {
                Some(cadena_de(&t))
            } else {
                None
            }
        },
        None => None,
    }
}

/// The page size: 50 by default, kept between 1 and 200.
pub open spec fn limite_spec(limit: Option<i64>) -> i64 {
    let l = match limit {
        Some(x) => x,
        None => 50,
    };
    if l < 1 {
        1
    } else if l > 200 {
        200
    } else {
        l
    }
}

/// The page size of a query: 50 by default, kept between 1 and 200.
pub fn limite_efectivo(limit: Option<i64>) -> (r: i64)
    ensures
        r == limite_spec(limit),
        1 <= r <= 200,
{
    let l = match limit {
        Some(x) => x,
        None => 50,
    };
    if l < 1 {
        1
    } else if l > 200 {
        200
    } else {
        l
    }
}

/// `text.replace('%', "\\%").replace('_', "\\_")`.
pub open spec fn escapar(s: Seq<char>) -> Seq<char>
    decreases s.len(),
{
    if s.len() == 0 {
        Seq::empty()
    } else {
        let c = s.last();
        escapar(s.drop_last()) + if c == '%' {
            seq!['\\', '%']
        } else if c == '_' {
            seq!['\\', '_']
        } else {
            seq![c]
        }
    }
}

/// The LIKE pattern of a full text search: the text with `%` and `_` escaped, between `%`.
pub open spec fn patron_spec(s: Seq<char>) -> Seq<char> {
    seq!['%'] + escapar(s) + seq!['%']
}

/// The LIKE pattern of a full text search.
pub fn patron_like(s: &str) -> (r: String)
    ensures
        r@ == patron_spec(s@),
{
    let cs = caracteres(s);
    let n = cs.len();
    let mut v: Vec<char> = Vec::new();
    v.push('%');
    let mut i: usize = 0;
    assert(cs@.take(0) =~= Seq::<char>::empty());
    while i < n
        invariant
            i <= n == cs@.len(),
            v@ == seq!['%'] + escapar(cs@.take(i as int)),
        decreases n - i,
    {
        let c = cs[i];
        if c == '%' {
            v.push('\\');
            v.push('%');
        } else if c == '_' {
            v.push('\\');
            v.push('_');
        } else {
            v.push(c);
        }
        assert(cs@.take(i + 1).drop_last() =~= cs@.take(i as int));
        assert(v@ =~= seq!['%'] + escapar(cs@.take(i + 1)));
        i = i + 1;
    }
    assert(cs@.take(n as int) =~= cs@);
    v.push('%');
    assert(v@ =~= patron_spec(s@));
    cadena_de(&v)
}

/// One condition of an entry query.
#[derive(Clone, Debug, PartialEq)]
pub enum Filtro {
    /// The application has this slug.
    Aplicacion(String),
    /// Created on this day (YYYY-MM-DD) or later.
    Desde(String),
    /// Created on this day (YYYY-MM-DD) or earlier.
    Hasta(String),
    /// The entry has this tag.
    Etiqueta(String),
    /// Title, prompt, summary or response match this LIKE pattern.
    Texto(String),
    /// The entry has been exported (`true`) or is still pending (`false`).
    Exportada(bool),
    /// The id is below this cursor.
    Cursor(i64),
}

/// A condition as values.
pub enum FiltroVista {
    Aplicacion(Seq<char>),
    Desde(Seq<char>),
    Hasta(Seq<char>),
    Etiqueta(Seq<char>),
    Texto(Seq<char>),
    Exportada(bool),
    Cursor(i64),
}

impl View for Filtro {
    type V = FiltroVista;

    open spec fn view(&self) -> FiltroVista {
        match self {
            Filtro::Aplicacion(s) => FiltroVista::Aplicacion(s@),
            Filtro::Desde(s) => FiltroVista::Desde(s@),
            Filtro::Hasta(s) => FiltroVista::Hasta(s@),
            Filtro::Etiqueta(s) => FiltroVista::Etiqueta(s@),
            Filtro::Texto(s) => FiltroVista::Texto(s@),
            Filtro::Exportada(b) => FiltroVista::Exportada(*b),
            Filtro::Cursor(n) => FiltroVista::Cursor(*n),
        }
    }
}

/// The conditions of a query, as values.
pub open spec fn vista_filtros(v: Seq<Filtro>) -> Seq<FiltroVista> {
    v.map_values(|f: Filtro| f@)
}

/// One condition built from a text when there is one, none otherwise.
pub open spec fn si_hay(o: Option<Seq<char>>, f: spec_fn(Seq<char>) -> FiltroVista) -> Seq<FiltroVista> {
    match o {
        Some(s) => seq![f(s)],
        None => Seq::empty(),
    }
}

/// The conditions of an entry query, in this order: application (by slug), from, to,
/// tag, text, export state, cursor. Blank texts are no condition; texts are trimmed.
pub open spec fn filtros_spec(q: crate::consulta::ConsultaVista) -> Seq<FiltroVista> {
    si_hay(no_vacio(q.application), |s: Seq<char>| FiltroVista::Aplicacion(slug(s))) + si_hay(
        no_vacio(q.from),
        |s: Seq<char>| FiltroVista::Desde(s),
    ) + si_hay(no_vacio(q.to), |s: Seq<char>| FiltroVista::Hasta(s)) + si_hay(
        no_vacio(q.tag),
        |s: Seq<char>| FiltroVista::Etiqueta(s),
    ) + si_hay(no_vacio(q.q), |s: Seq<char>| FiltroVista::Texto(patron_spec(s))) + match q.exported {
        Some(b) => seq![FiltroVista::Exportada(b)],
        None => Seq::<FiltroVista>::empty(),
    } + match q.cursor {
        Some(c) => seq![FiltroVista::Cursor(c)],
        None => Seq::<FiltroVista>::empty(),
    }
}

fn anadir_filtro(v: &mut Vec<Filtro>, f: Filtro)
    ensures
        vista_filtros(final(v)@) == vista_filtros(old(v)@).push(f@),
{
    let ghost previo = vista_filtros(v@);
    v.push(f);
    assert(vista_filtros(v@) =~= previo.push(f@));
}

/// The conditions of an entry query.
#[verifier::spinoff_prover]
#[verifier::rlimit(60)]
pub fn filtros_de_consulta(q: &EntryQuery) -> (r: Vec<Filtro>)
    ensures
        vista_filtros(r@) == filtros_spec(q@),
{
    let mut v: Vec<Filtro> = Vec::new();
    let ghost v0 = vista_filtros(v@);
    if let Some(app) = non_empty(&q.application) {
        anadir_filtro(&mut v, Filtro::Aplicacion(slugify(app.as_str())));
    }
    let ghost v1 = vista_filtros(v@);
    if let Some(from) = non_empty(&q.from) {
        anadir_filtro(&mut v, Filtro::Desde(from));
    }
    let ghost v2 = vista_filtros(v@);
    if let Some(to) = non_empty(&q.to) {
        anadir_filtro(&mut v, Filtro::Hasta(to));
    }
    let ghost v3 = vista_filtros(v@);
    if let Some(tag) = non_empty(&q.tag) {
        anadir_filtro(&mut v, Filtro::Etiqueta(tag));
    }
    let ghost v4 = vista_filtros(v@);
    if let Some(t) = non_empty(&q.q) {
        anadir_filtro(&mut v, Filtro::Texto(patron_like(t.as_str())));
    }
    let ghost v5 = vista_filtros(v@);
    if let Some(b) = q.exported {
        anadir_filtro(&mut v, Filtro::Exportada(b));
    }
    let ghost v6 = vista_filtros(v@);
    if let Some(c) = q.cursor {
        anadir_filtro(&mut v, Filtro::Cursor(c));
    }
    assert(v0 =~= Seq::<FiltroVista>::empty());
    assert(vista_filtros(v@) =~= filtros_spec(q@));
    v
}

/// A day-count filter that counts: present and not empty (not trimmed).
pub open spec fn no_vacio_sin_recortar(o: Option<Seq<char>>) -> Option<Seq<char>> {
    match o {
        Some(s) => if s.len() > 0 {
            Some(s)
        } else {
            None
        },
        None => None,
    }
}

/// The conditions of the day counts: application (by slug), from and to, each one
/// only when present and not empty.
pub open spec fn filtros_estadisticas_spec(
    application: Option<Seq<char>>,
    from: Option<Seq<char>>,
    to: Option<Seq<char>>,
) -> Seq<FiltroVista> {
    si_hay(no_vacio_sin_recortar(application), |s: Seq<char>| FiltroVista::Aplicacion(slug(s)))
        + si_hay(no_vacio_sin_recortar(from), |s: Seq<char>| FiltroVista::Desde(s)) + si_hay(
        no_vacio_sin_recortar(to),
        |s: Seq<char>| FiltroVista::Hasta(s),
    )
}

/// The conditions of the day counts.
pub fn filtros_de_estadisticas(
    application: Option<&str>,
    from: Option<&str>,
    to: Option<&str>,
) -> (r: Vec<Filtro>)
    ensures
        vista_filtros(r@) == filtros_estadisticas_spec(
            application.deep_view(),
            from.deep_view(),
            to.deep_view(),
        ),
{
    let mut v: Vec<Filtro> = Vec::new();
    let ghost v0 = vista_filtros(v@);
    if let Some(app) = application {
        if app.unicode_len() > 0 {
            anadir_filtro(&mut v, Filtro::Aplicacion(slugify(app)));
        }
    }
    if let Some(f) = from {
        if f.unicode_len() > 0 {
            anadir_filtro(&mut v, Filtro::Desde(texto(f)));
        }
    }
    if let Some(t) = to {
        if t.unicode_len() > 0 {
            anadir_filtro(&mut v, Filtro::Hasta(texto(t)));
        }
    }
    assert(v0 =~= Seq::<FiltroVista>::empty());
    assert(vista_filtros(v@) =~= filtros_estadisticas_spec(
        application.deep_view(),
        from.deep_view(),
        to.deep_view(),
    ));
    v
}

/// A page made from the rows read with one row more than the page size: when that
/// extra row came, it is dropped and the cursor for the next page is the id of the
/// last entry kept.
pub fn paginar(rows: Vec<EntrySummary>, limit: i64) -> (r: EntryPage)
    requires
        1 <= limit,
    ensures
        rows@.len() > limit ==> r.entries@ == rows@.take(limit as int) && r.next_cursor == Some(
            rows@[limit - 1].id,
        ),
        rows@.len() <= limit ==> r.entries@ == rows@ && r.next_cursor is None,
{
    let mut entries = rows;
    if entries.len() as u128 > limit as u128 {
        entries.truncate(limit as usize);
        let id = entries[entries.len() - 1].id;
        EntryPage { entries, next_cursor: Some(id) }
    } else {
        EntryPage { entries, next_cursor: None }
    }
}

/// The pieces of a text cut at every occurrence of a separator.
pub open spec fn partir_en(s: Seq<char>, sep: char) -> Seq<Seq<char>>
    decreases s.len(),
{
    if s.len() == 0 {
        seq![Seq::<char>::empty()]
    } else {
        let p = partir_en(s.drop_last(), sep);
        if s.last() == sep {
            p.push(Seq::<char>::empty())
        } else {
            p.update(p.len() - 1, p.last().push(s.last()))
        }
    }
}

proof fn lema_partir_no_vacio(s: Seq<char>, sep: char)
    ensures
        partir_en(s, sep).len() >= 1,
    decreases s.len(),
{
    if s.len() > 0 {
        lema_partir_no_vacio(s.drop_last(), sep);
    }
}

/// The tags of an entry as the database groups them: joined by the unit separator
/// (U+001F); none when the text is absent or empty.
pub open spec fn etiquetas_de_texto(joined: Option<Seq<char>>) -> Seq<Seq<char>> {
    match joined {
        Some(s) => if s.len() > 0 {
            partir_en(s, '\u{1f}')
        } else {
            Seq::empty()
        },
        None => Seq::empty(),
    }
}

/// The tags of an entry from the text the database groups them in.
pub fn split_tags(joined: Option<String>) -> (r: Vec<String>)
    ensures
        r.deep_view() == etiquetas_de_texto(joined.deep_view()),
{
    match joined {
        Some(s) => {
            if s.unicode_len() == 0 {
                return Vec::new();
            }
            split_en(s.as_str(), '\u{1f}')
        },
        None => Vec::new(),
    }
}

/// The tags of a new entry that are stored: trimmed, the blank ones left out.
pub open spec fn etiquetas_limpias_spec(tags: Seq<Seq<char>>) -> Seq<Seq<char>>
    decreases tags.len(),
{
    if tags.len() == 0 {
        Seq::empty()
    } else {
        let t = recortado(tags.last());
        etiquetas_limpias_spec(tags.drop_last()) + if t.len() > 0 {
            seq![t]
        } else {
            Seq::<Seq<char>>::empty()
        }
    }
}

/// The tags of a new entry that are stored: trimmed, the blank ones left out.
pub fn etiquetas_limpias(tags: &Vec<String>) -> (r: Vec<String>)
    ensures
        r.deep_view() == etiquetas_limpias_spec(tags.deep_view()),
{
    let n = tags.len();
    let mut r: Vec<String> = Vec::new();
    let mut k: usize = 0;
    assert(tags.deep_view().take(0) =~= Seq::<Seq<char>>::empty());
    while k < n
        invariant
            k <= n == tags@.len(),
            r.deep_view() == etiquetas_limpias_spec(tags.deep_view().take(k as int)),
        decreases n - k,
    {
        let ghost previo = r.deep_view();
        let t = recortar(&caracteres(tags[k].as_str()));
        assert(tags.deep_view().take(k + 1).drop_last() =~= tags.deep_view().take(k as int));
        assert(tags.deep_view().take(k + 1).last() == tags@[k as int]@);
        if t.len() > 0 {
            let s = cadena_de(&t);
            r.push(s);
            assert(r.deep_view() =~= previo + seq![s@]);
        } else {
            assert(r.deep_view() =~= previo + Seq::<Seq<char>>::empty());
        }
        k = k + 1;
    }
    assert(tags.deep_view().take(n as int) =~= tags.deep_view());
    r
}

/// What is stored of a new entry besides its own fields.
#[derive(Debug)]
pub struct EntradaPreparada {
    /// Slug of the application.
    pub slug: String,
    /// Name of the application when it has to be created: the given name, trimmed.
    pub nombre_aplicacion: String,
    /// The title, trimmed.
    pub titulo: String,
    /// The tags, trimmed, without the blank ones.
    pub etiquetas: Vec<String>,
}

/// Checks a new entry and works out what is stored of it: a blank title or a blank
/// application is a bad request.
pub fn preparar_entrada(new: &NewEntry) -> (r: Result<EntradaPreparada, AppError>)
    ensures
        recortado(new.title@).len() == 0 ==> (r matches Err(AppError::BadRequest(m)) && m@
            == "title es obligatorio"@),
        recortado(new.title@).len() > 0 && recortado(new.application@).len() == 0 ==> (
        r matches Err(AppError::BadRequest(m)) && m@ == "application es obligatorio"@),
        recortado(new.title@).len() > 0 && recortado(new.application@).len() > 0 ==> (
        r matches Ok(p) && p.slug@ == slug(new.application@) && p.nombre_aplicacion@ == recortado(
            new.application@,
        ) && p.titulo@ == recortado(new.title@) && p.etiquetas.deep_view()
            == etiquetas_limpias_spec(new.tags.deep_view())),
{
    let titulo = recortar(&caracteres(new.title.as_str()));
    if titulo.len() == 0 {
        return Err(AppError::BadRequest(texto("title es obligatorio")));
    }
    let nombre = recortar(&caracteres(new.application.as_str()));
    if nombre.len() == 0 {
        return Err(AppError::BadRequest(texto("application es obligatorio")));
    }
    Ok(
        EntradaPreparada {
            slug: slugify(new.application.as_str()),
            nombre_aplicacion: cadena_de(&nombre),
            titulo: cadena_de(&titulo),
            etiquetas: etiquetas_limpias(&new.tags),
        },
    )
}


/// The pieces of a text cut at every occurrence of a separator (`str::split`).
pub fn split_en(s: &str, sep: char) -> (r: Vec<String>)
    ensures
        r.deep_view() == partir_en(s@, sep),
{
    let cs = caracteres(s);
    let n = cs.len();
    let mut hechas: Vec<String> = Vec::new();
    let mut actual: Vec<char> = Vec::new();
    let mut i: usize = 0;
    assert(cs@.take(0) =~= Seq::<char>::empty());
    assert(hechas.deep_view().push(actual@) =~= partir_en(cs@.take(0), sep));
    while i < n
        invariant
            i <= n == cs@.len(),
            hechas.deep_view().push(actual@) == partir_en(cs@.take(i as int), sep),
        decreases n - i,
    {
        let c = cs[i];
        let ghost antes = hechas.deep_view();
        assert(cs@.take(i + 1).drop_last() =~= cs@.take(i as int));
        assert(cs@.take(i + 1).last() == c);
        if c == sep {
            let t = cadena_de(&actual);
            hechas.push(t);
            actual = Vec::new();
            assert(hechas.deep_view() =~= antes.push(t@));
            assert(hechas.deep_view().push(actual@) =~= partir_en(cs@.take(i + 1), sep));
        } else {
            let ghost previo = actual@;
            actual.push(c);
            assert(hechas.deep_view().push(actual@) =~= antes.push(previo).update(
                antes.len() as int,
                previo.push(c),
            ));
        }
        i = i + 1;
    }
    assert(cs@.take(n as int) =~= cs@);
    let ghost antes = hechas.deep_view();
    let t = cadena_de(&actual);
    hechas.push(t);
    assert(hechas.deep_view() =~= antes.push(t@));
    hechas
}


proof fn lema_contiene_concat(a: Seq<FiltroVista>, b: Seq<FiltroVista>, x: FiltroVista)
    ensures
        (a + b).contains(x) <==> a.contains(x) || b.contains(x),
{
    if (a + b).contains(x) {
        let i = choose|i: int| 0 <= i < (a + b).len() && (a + b)[i] == x;
        if i < a.len() {
            assert(a[i] == x);
        } else {
            assert(b[i - a.len()] == x);
        }
    }
    if a.contains(x) {
        let i = choose|i: int| 0 <= i < a.len() && a[i] == x;
        assert((a + b)[i] == x);
    }
    if b.contains(x) {
        let i = choose|i: int| 0 <= i < b.len() && b[i] == x;
        assert((a + b)[a.len() + i] == x);
    }
}

proof fn lema_contiene_uno(e: FiltroVista, x: FiltroVista)
    ensures
        seq![e].contains(x) <==> e == x,
{
    if e == x {
        assert(seq![e][0] == x);
    }
}

/// The dates of a query bound it the right way round: a non-blank `from` gives exactly
/// one lower bound (`Desde`, with the trimmed date) and a non-blank `to` exactly one
/// upper bound (`Hasta`); no other field gives either, so `from` never becomes an upper
/// bound nor `to` a lower one.
pub proof fn ley_fechas_de_la_consulta(q: crate::consulta::ConsultaVista, x: Seq<char>)
    ensures
        filtros_spec(q).contains(FiltroVista::Desde(x)) <==> (q.from matches Some(d) && recortado(
            d,
        ).len() > 0 && x == recortado(d)),
        filtros_spec(q).contains(FiltroVista::Hasta(x)) <==> (q.to matches Some(h) && recortado(
            h,
        ).len() > 0 && x == recortado(h)),
{
    let a = si_hay(no_vacio(q.application), |s: Seq<char>| FiltroVista::Aplicacion(slug(s)));
    let b = si_hay(no_vacio(q.from), |s: Seq<char>| FiltroVista::Desde(s));
    let c = si_hay(no_vacio(q.to), |s: Seq<char>| FiltroVista::Hasta(s));
    let d = si_hay(no_vacio(q.tag), |s: Seq<char>| FiltroVista::Etiqueta(s));
    let e = si_hay(no_vacio(q.q), |s: Seq<char>| FiltroVista::Texto(patron_spec(s)));
    let f = match q.exported {
        Some(v) => seq![FiltroVista::Exportada(v)],
        None => Seq::<FiltroVista>::empty(),
    };
    let g = match q.cursor {
        Some(k) => seq![FiltroVista::Cursor(k)],
        None => Seq::<FiltroVista>::empty(),
    };
    assert(filtros_spec(q) == a + b + c + d + e + f + g);
    let cotas = seq![FiltroVista::Desde(x), FiltroVista::Hasta(x)];
    assert forall|y: FiltroVista| cotas.contains(y) implies {
        &&& filtros_spec(q).contains(y) <==> (b.contains(y) || c.contains(y))
        &&& b.contains(y) <==> (no_vacio(q.from) matches Some(s) && y == FiltroVista::Desde(s))
        &&& c.contains(y) <==> (no_vacio(q.to) matches Some(s) && y == FiltroVista::Hasta(s))
    } by {
        assert(y == cotas[0] || y == cotas[1]);
        lema_contiene_concat(a, b, y);
        lema_contiene_concat(a + b, c, y);
        lema_contiene_concat(a + b + c, d, y);
        lema_contiene_concat(a + b + c + d, e, y);
        lema_contiene_concat(a + b + c + d + e, f, y);
        lema_contiene_concat(a + b + c + d + e + f, g, y);
        if let Some(s) = no_vacio(q.application) {
            lema_contiene_uno(FiltroVista::Aplicacion(slug(s)), y);
        }
        if let Some(s) = no_vacio(q.from) {
            lema_contiene_uno(FiltroVista::Desde(s), y);
        }
        if let Some(s) = no_vacio(q.to) {
            lema_contiene_uno(FiltroVista::Hasta(s), y);
        }
        if let Some(s) = no_vacio(q.tag) {
            lema_contiene_uno(FiltroVista::Etiqueta(s), y);
        }
        if let Some(s) = no_vacio(q.q) {
            lema_contiene_uno(FiltroVista::Texto(patron_spec(s)), y);
        }
        if let Some(v) = q.exported {
            lema_contiene_uno(FiltroVista::Exportada(v), y);
        }
        if let Some(k) = q.cursor {
            lema_contiene_uno(FiltroVista::Cursor(k), y);
        }
    }
    assert(cotas.contains(FiltroVista::Desde(x))) by {
        assert(cotas[0] == FiltroVista::Desde(x));
    }
    assert(cotas.contains(FiltroVista::Hasta(x))) by {
        assert(cotas[1] == FiltroVista::Hasta(x));
    }
}
}
