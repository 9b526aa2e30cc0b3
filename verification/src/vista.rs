use vstd::prelude::*;

use crate::consulta::{mismo_texto, texto, EntryQuery};
use crate::ruta;
use crate::markdown::{juntar, markdown_de, markdown_spec, unir_con};
use crate::modelo::{Entry, EntrySummary};
use crate::numeros::{decimal, decimal_de, decimal_nat, entero_de, entero_desde, lema_decimal_nat, lema_entero_de_decimal, es_digito};
use crate::texto::{cadena_de, caracteres, tramo};
use crate::tiempo::{ahora_local_compacta, dia_de, dia_utc, hora_local_posible, rfc3339_utc};

verus! {

/// `trim_end_matches('/')`.
pub open spec fn sin_barras_finales(s: Seq<char>) -> Seq<char>
    decreases s.len(),
{
    if s.len() > 0 && s.last() == '/' {
        sin_barras_finales(s.drop_last())
    } else {
        s
    }
}

/// The view a browser path shows.
pub open spec fn vista_de_ruta(p: Seq<char>) -> ruta::View {
    let pre = "/entry/"@;
    if p.len() >= pre.len() && p.take(pre.len() as int) == pre && entero_de(
        sin_barras_finales(p.skip(pre.len() as int)),
    ) is Some {
        ruta::View::Detail(entero_de(sin_barras_finales(p.skip(pre.len() as int)))->0)
    } else if sin_barras_finales(p) == "/hilo"@ {
        ruta::View::Hilo
    } else {
        ruta::View::List
    }
}

/// The path of each view.
pub open spec fn ruta_spec(v: ruta::View) -> Seq<char> {
    match v {
        ruta::View::Hilo => "/hilo"@,
        ruta::View::Detail(id) => "/entry/"@ + decimal(id as int),
        ruta::View::List => "/"@,
    }
}

/// Whether `a` starts with `b`.
pub fn empieza_por(a: &Vec<char>, b: &Vec<char>) -> (r: bool)
    ensures
        r == (b@.len() <= a@.len() && a@.take(b@.len() as int) == b@),
{
    if b.len() > a.len() {
        return false;
    }
    let n = b.len();
    let mut i: usize = 0;
    while i < n
        invariant
            i <= n == b@.len() <= a@.len(),
            forall|j: int| 0 <= j < i ==> a@[j] == b@[j],
        decreases n - i,
    {
        if a[i] != b[i] {
            assert(a@.take(n as int)[i as int] != b@[i as int]);
            return false;
        }
        i = i + 1;
    }
    assert(a@.take(n as int) =~= b@);
    true
}

/// `trim_end_matches('/')` on a character vector.
pub fn quitar_barras_finales(s: &Vec<char>) -> (r: Vec<char>)
    ensures
        r@ == sin_barras_finales(s@),
{
    let mut j = s.len();
    assert(s@.subrange(0, j as int) =~= s@);
    while j > 0 && s[j - 1] == '/'
        invariant
            j <= s@.len(),
            sin_barras_finales(s@) == sin_barras_finales(s@.subrange(0, j as int)),
        decreases j,
    {
        assert(s@.subrange(0, j as int).drop_last() =~= s@.subrange(0, j - 1));
        j = j - 1;
    }
    tramo(s, 0, j)
}

/// The view of a browser path: `/entry/{id}` is the detail of an entry, `/hilo`
/// the thread, and any other path the list.
pub fn parse_route(path: &str) -> (r: ruta::View)
    ensures
        r == vista_de_ruta(path@),
{
    let p = caracteres(path);
    let pre = caracteres("/entry/");
    if empieza_por(&p, &pre) {
        let resto = quitar_barras_finales(&tramo(&p, pre.len(), p.len()));
        assert(p@.subrange(pre@.len() as int, p@.len() as int) =~= p@.skip(pre@.len() as int));
        match entero_desde(&resto) {
            Some(id) => {
                return ruta::View::Detail(id);
            },
            None => {},
        }
    }
    let limpio = cadena_de(&quitar_barras_finales(&p));
    if mismo_texto(limpio.as_str(), "/hilo") {
        ruta::View::Hilo
    } else {
        ruta::View::List
    }
}

/// The path of each view.
pub fn ruta_de(view: ruta::View) -> (r: String)
    ensures
        r@ == ruta_spec(view),
{
    match view {
        ruta::View::Hilo => texto("/hilo"),
        ruta::View::Detail(id) => {
            let mut s = texto("/entry/");
            let n = cadena_de(&decimal_de(id));
            s.append(n.as_str());
            s
        },
        ruta::View::List => texto("/"),
    }
}

/// Every view is found again from its own path, so a deep link reopens the same view.
pub proof fn ley_ruta_ida_y_vuelta(v: ruta::View)
    ensures
        vista_de_ruta(ruta_spec(v)) == v,
{
    reveal_strlit("/entry/");
    reveal_strlit("/hilo");
    reveal_strlit("/");
    match v {
        ruta::View::Hilo => {
            let p = "/hilo"@;
            assert(p.len() == 5);
            assert(sin_barras_finales(p) == p);
        },
        ruta::View::List => {
            let p = "/"@;
            assert(p.len() == 1 && p[0] == '/');
            assert(p.drop_last() =~= Seq::<char>::empty());
            assert(sin_barras_finales(Seq::<char>::empty()) =~= Seq::<char>::empty());
            assert(sin_barras_finales(p) =~= Seq::<char>::empty());
            assert("/hilo"@.len() == 5);
        },
        ruta::View::Detail(id) => {
            let p = "/entry/"@ + decimal(id as int);
            let pre = "/entry/"@;
            assert(p.take(pre.len() as int) =~= pre);
            assert(p.skip(pre.len() as int) =~= decimal(id as int));
            let d = decimal(id as int);
            if id < 0 {
                lema_decimal_nat((-(id as int)) as nat);
                assert(d.last() == decimal_nat((-(id as int)) as nat).last());
                assert(es_digito(decimal_nat((-(id as int)) as nat)[decimal_nat((-(id as int)) as nat).len() - 1]));
            } else {
                lema_decimal_nat(id as nat);
                assert(es_digito(d[d.len() - 1]));
            }
            assert(sin_barras_finales(d) == d);
            lema_entero_de_decimal(id);
        },
    }
}

/// The address a view with some filters has in the browser: its path, and the
/// query string when there is one.
pub open spec fn destino_spec(v: ruta::View, query: Seq<char>) -> Seq<char> {
    if query.len() == 0 {
        ruta_spec(v)
    } else {
        ruta_spec(v) + "?"@ + query
    }
}

/// The browser address of a view keeps its filters, whatever the view: with a query,
/// the address is the view's path, a `?` and the query, so the view is found again
/// from the part before the `?` and the query is the part after it.
pub proof fn ley_direccion_con_filtros(v: ruta::View, query: Seq<char>)
    requires
        query.len() > 0,
    ensures
        destino_spec(v, query).len() == ruta_spec(v).len() + 1 + query.len(),
        destino_spec(v, query)[ruta_spec(v).len() as int] == '?',
        vista_de_ruta(destino_spec(v, query).take(ruta_spec(v).len() as int)) == v,
        destino_spec(v, query).skip(ruta_spec(v).len() as int + 1) == query,
{
    reveal_strlit("?");
    let a = destino_spec(v, query);
    let p = ruta_spec(v);
    assert(a =~= p + "?"@ + query);
    assert(a.take(p.len() as int) =~= p);
    assert(a.skip(p.len() as int + 1) =~= query);
    ley_ruta_ida_y_vuelta(v);
}

/// The address a view with some filters has in the browser.
pub fn destino_de(view: ruta::View, query: &str) -> (r: String)
    ensures
        r@ == destino_spec(view, query@),
{
    let mut r = ruta_de(view);
    if query.unicode_len() > 0 {
        r.append("?");
        r.append(query);
    }
    r
}


/// One piece of a filter description, when that filter is set.
pub open spec fn parte(o: Option<Seq<char>>, antes: Seq<char>, despues: Seq<char>) -> Seq<Seq<char>> {
    match o {
        Some(v) => seq![antes + v + despues],
        None => Seq::empty(),
    }
}

/// The pieces of the one-line description of some filters.
pub open spec fn partes_de(q: crate::consulta::ConsultaVista) -> Seq<Seq<char>> {
    parte(q.application, Seq::empty(), Seq::empty()) + parte(q.tag, "#"@, Seq::empty()) + parte(
        q.from,
        "desde "@,
        Seq::empty(),
    ) + parte(q.to, "hasta "@, Seq::empty()) + parte(q.q, "\""@, "\""@) + (if q.exported
        == Some(false) {
        seq!["sin exportar"@]
    } else {
        Seq::<Seq<char>>::empty()
    })
}

/// How some filters are described in one line: "diario-ia · #build · desde …".
pub open spec fn descripcion_spec(q: crate::consulta::ConsultaVista) -> Seq<char> {
    if partes_de(q).len() == 0 {
        "todo el diario"@
    } else {
        unir_con(partes_de(q), " · "@)
    }
}

fn anadir_parte(v: &mut Vec<String>, o: &Option<String>, antes: &str, despues: &str)
    ensures
        final(v).deep_view() == old(v).deep_view() + parte(o.deep_view(), antes@, despues@),
{
    let ghost previo = v.deep_view();
    if let Some(x) = o {
        let mut t = texto(antes);
        t.append(x.as_str());
        t.append(despues);
        v.push(t);
        assert(v.deep_view() =~= previo + parte(o.deep_view(), antes@, despues@));
    } else {
        assert(v.deep_view() =~= previo + parte(o.deep_view(), antes@, despues@));
    }
}

/// How some filters are described in one line: "diario-ia · #build · desde …".
pub fn descripcion_filtros(q: &EntryQuery) -> (r: String)
    ensures
        r@ == descripcion_spec(q@),
{
    let mut partes: Vec<String> = Vec::new();
    assert(partes.deep_view() =~= Seq::<Seq<char>>::empty());
    anadir_parte(&mut partes, &q.application, "", "");
    anadir_parte(&mut partes, &q.tag, "#", "");
    anadir_parte(&mut partes, &q.from, "desde ", "");
    anadir_parte(&mut partes, &q.to, "hasta ", "");
    anadir_parte(&mut partes, &q.q, "\"", "\"");
    let ghost previo = partes.deep_view();
    if q.exported == Some(false) {
        partes.push(texto("sin exportar"));
    }
    proof {
        reveal_strlit("");
        assert(""@ =~= Seq::<char>::empty());
    }
    assert(partes.deep_view() =~= partes_de(q@));
    if partes.len() == 0 {
        texto("todo el diario")
    } else {
        juntar(&partes, " · ")
    }
}

/// A search on dates alone is described by its bound: "desde" and the date for a
/// lower bound, "hasta" and the date for an upper one, so the two never read alike.
pub proof fn ley_descripcion_de_las_fechas(d: Seq<char>)
    ensures
        descripcion_spec(
            crate::consulta::ConsultaVista { from: Some(d), ..crate::consulta::consulta_vacia() },
        ) == "desde "@ + d,
        descripcion_spec(
            crate::consulta::ConsultaVista { to: Some(d), ..crate::consulta::consulta_vacia() },
        ) == "hasta "@ + d,
        descripcion_spec(
            crate::consulta::ConsultaVista { from: Some(d), ..crate::consulta::consulta_vacia() },
        ) != descripcion_spec(
            crate::consulta::ConsultaVista { to: Some(d), ..crate::consulta::consulta_vacia() },
        ),
{
    reveal_strlit("desde ");
    reveal_strlit("hasta ");
    let qd = crate::consulta::ConsultaVista { from: Some(d), ..crate::consulta::consulta_vacia() };
    let qh = crate::consulta::ConsultaVista { to: Some(d), ..crate::consulta::consulta_vacia() };
    assert(partes_de(qd) =~= seq!["desde "@ + d]);
    assert(partes_de(qh) =~= seq!["hasta "@ + d]);
    let a = "desde "@ + d;
    let b = "hasta "@ + d;
    assert(a[0] == 'd' && b[0] == 'h');
}

/// "1 entrada", "n entradas".
pub open spec fn cuantas_spec(n: nat) -> Seq<char> {
    if n == 1 {
        "1 entrada"@
    } else {
        decimal_nat(n) + " entradas"@
    }
}

/// "1 entrada", "n entradas".
pub fn cuantas(n: usize) -> (r: String)
    ensures
        r@ == cuantas_spec(n as nat),
{
    if n == 1 {
        texto("1 entrada")
    } else {
        let mut s = cadena_de(&crate::numeros::decimal_de_natural(n as u64));
        s.append(" entradas");
        s
    }
}

/// The markdown of a thread: a heading that says which search it comes from, then
/// the markdown of each entry, separated by a rule.
pub open spec fn hilo_spec(q: crate::consulta::ConsultaVista, entradas: Seq<Entry>) -> Seq<char> {
    "# Diario-IA — "@ + descripcion_spec(q) + " ("@ + cuantas_spec(entradas.len()) + ")\n\n"@
        + unir_con(entradas.map_values(|e: Entry| markdown_spec(e)), "\n---\n\n"@)
}

/// The markdown of a whole thread. Each entry is written by `markdown_de`, the same
/// function that writes the files of the repositories.
pub fn markdown_del_hilo(q: &EntryQuery, entradas: &Vec<Entry>) -> (r: String)
    ensures
        r@ == hilo_spec(q@, entradas@),
{
    let mut s = texto("# Diario-IA — ");
    let d = descripcion_filtros(q);
    s.append(d.as_str());
    s.append(" (");
    let c = cuantas(entradas.len());
    s.append(c.as_str());
    s.append(")\n\n");
    let mut textos: Vec<String> = Vec::new();
    let n = entradas.len();
    let mut k: usize = 0;
    while k < n
        invariant
            k <= n == entradas@.len(),
            textos.deep_view() =~= entradas@.take(k as int).map_values(|e: Entry| markdown_spec(e)),
        decreases n - k,
    {
        let ghost previo = textos.deep_view();
        let m = markdown_de(&entradas[k]);
        textos.push(m);
        assert(textos.deep_view() =~= previo.push(m@));
        assert(entradas@.take(k + 1).map_values(|e: Entry| markdown_spec(e)) =~= entradas@.take(
            k as int,
        ).map_values(|e: Entry| markdown_spec(e)).push(markdown_spec(entradas@[k as int])));
        k = k + 1;
    }
    assert(entradas@.take(n as int) =~= entradas@);
    let cuerpo = juntar(&textos, "\n---\n\n");
    s.append(cuerpo.as_str());
    s
}

/// What a thread is about: its application, else its tag, else the whole diary.
pub open spec fn ambito_spec(q: crate::consulta::ConsultaVista) -> Seq<char> {
    match q.application {
        Some(a) => a,
        None => match q.tag {
            Some(t) => t,
            None => "diario"@,
        },
    }
}

/// The file name of a thread for a given local date and time.
pub open spec fn nombre_hilo_spec(q: crate::consulta::ConsultaVista, hora: Seq<char>) -> Seq<char> {
    "hilo-"@ + ambito_spec(q) + "-"@ + hora + ".md"@
}

/// The file name of a thread for a given local date and time.
pub fn nombre_hilo_con_hora(q: &EntryQuery, hora: &str) -> (r: String)
    ensures
        r@ == nombre_hilo_spec(q@, hora@),
{
    let mut s = texto("hilo-");
    match &q.application {
        Some(a) => s.append(a.as_str()),
        None => match &q.tag {
            Some(t) => s.append(t.as_str()),
            None => s.append("diario"),
        },
    }
    s.append("-");
    s.append(hora);
    s.append(".md");
    s
}

/// The file name of a downloaded thread, stamped with the current local time.
pub fn nombre_del_hilo(q: &EntryQuery) -> (r: String)
    ensures
        exists|hora: Seq<char>, segundos: int, nanos: int|
            rfc3339_utc(segundos, nanos) is Some && hora_local_posible(segundos, nanos, hora) && r@
                == nombre_hilo_spec(q@, hora),
{
    let hora = ahora_local_compacta();
    nombre_hilo_con_hora(q, hora.as_str())
}


/// The items grouped by runs of equal consecutive keys, each group with its key.
pub open spec fn grupos(ks: Seq<Seq<char>>, xs: Seq<EntrySummary>) -> Seq<(Seq<char>, Seq<EntrySummary>)>
    decreases xs.len(),
{
    if xs.len() == 0 || ks.len() == 0 {
        Seq::empty()
    } else {
        let g = grupos(ks.drop_last(), xs.drop_last());
        let k = ks.last();
        let x = xs.last();
        if g.len() > 0 && g.last().0 == k {
            g.update(g.len() - 1, (k, g.last().1.push(x)))
        } else {
            g.push((k, seq![x]))
        }
    }
}

/// The groups as values.
pub open spec fn vista_grupos(r: Seq<(String, Vec<EntrySummary>)>) -> Seq<(Seq<char>, Seq<EntrySummary>)> {
    r.map_values(|p: (String, Vec<EntrySummary>)| (p.0@, p.1@))
}

/// The items of the groups, one group after the other.
pub open spec fn aplanar(g: Seq<(Seq<char>, Seq<EntrySummary>)>) -> Seq<EntrySummary>
    decreases g.len(),
{
    if g.len() == 0 {
        Seq::empty()
    } else {
        aplanar(g.drop_last()) + g.last().1
    }
}

/// Groups consecutive items with equal keys.
pub fn agrupar(dias: &Vec<String>, items: Vec<EntrySummary>) -> (r: Vec<(String, Vec<EntrySummary>)>)
    requires
        dias@.len() == items@.len(),
    ensures
        vista_grupos(r@) == grupos(dias.deep_view(), items@),
{
    let ghost original = items@;
    let ghost ks = dias.deep_view();
    let n = items.len();
    let mut items = items;
    let mut out: Vec<(String, Vec<EntrySummary>)> = Vec::new();
    let mut clave = String::new();
    let mut actual: Vec<EntrySummary> = Vec::new();
    let mut k: usize = 0;
    assert(original.skip(0) =~= original);
    assert(ks.take(0) =~= Seq::<Seq<char>>::empty());
    assert(original.take(0) =~= Seq::<EntrySummary>::empty());
    while k < n
        invariant
            k <= n == original.len() == ks.len() == dias@.len(),
            ks == dias.deep_view(),
            items@ == original.skip(k as int),
            vista_grupos(out@) + (if k > 0 {
                seq![(clave@, actual@)]
            } else {
                Seq::<(Seq<char>, Seq<EntrySummary>)>::empty()
            }) == grupos(ks.take(k as int), original.take(k as int)),
            k > 0 ==> clave@ == ks[k - 1],
        decreases n - k,
    {
        let ghost g = grupos(ks.take(k as int), original.take(k as int));
        let ghost vo = vista_grupos(out@);
        assert(items@.len() > 0);
        let e = items.remove(0);
        assert(e == original[k as int]);
        assert(items@ =~= original.skip(k + 1));
        assert(ks.take(k + 1).drop_last() =~= ks.take(k as int));
        assert(original.take(k + 1).drop_last() =~= original.take(k as int));
        assert(ks.take(k + 1).last() == dias@[k as int]@);
        if k > 0 && mismo_texto(clave.as_str(), dias[k].as_str()) {
            let ghost a0 = actual@;
            actual.push(e);
            assert(g.last() == (clave@, a0));
            assert(vo + seq![(clave@, actual@)] =~= g.update(g.len() - 1, (clave@, a0.push(e))));
        } else {
            if k > 0 {
                let c = clave;
                let a = actual;
                out.push((c, a));
                assert(vista_grupos(out@) =~= vo.push((c@, a@)));
                assert(g.last() == (c@, a@));
            } else {
                assert(vista_grupos(out@) =~= vo);
            }
            clave = texto(dias[k].as_str());
            actual = Vec::new();
            actual.push(e);
            assert(actual@ =~= seq![e]);
            assert(vista_grupos(out@) + seq![(clave@, actual@)] =~= g.push((clave@, seq![e])));
        }
        k = k + 1;
    }
    assert(ks.take(n as int) =~= ks);
    assert(original.take(n as int) =~= original);
    if n > 0 {
        let ghost vo = vista_grupos(out@);
        out.push((clave, actual));
        assert(vista_grupos(out@) =~= vo + seq![(clave@, actual@)]);
    } else {
        assert(vista_grupos(out@) =~= vista_grupos(out@) + Seq::<(Seq<char>, Seq<EntrySummary>)>::empty());
    }
    out
}

/// The UTC day (`dd/mm/yyyy`) of each summary.
pub open spec fn dias_de(xs: Seq<EntrySummary>) -> Seq<Seq<char>> {
    xs.map_values(|e: EntrySummary| dia_utc(e.created_at.segundos_spec(), e.created_at.nanos_spec()))
}

/// The timeline grouped by day, in the order the entries come.
pub fn group_by_day(items: Vec<EntrySummary>) -> (r: Vec<(String, Vec<EntrySummary>)>)
    ensures
        vista_grupos(r@) == grupos(dias_de(items@), items@),
{
    let n = items.len();
    let mut dias: Vec<String> = Vec::new();
    let mut k: usize = 0;
    while k < n
        invariant
            k <= n == items@.len(),
            dias.deep_view() =~= dias_de(items@).take(k as int),
        decreases n - k,
    {
        let ghost previo = dias.deep_view();
        let d = dia_de(&items[k].created_at);
        dias.push(d);
        assert(dias.deep_view() =~= previo.push(d@));
        k = k + 1;
    }
    assert(dias_de(items@).take(n as int) =~= dias_de(items@));
    agrupar(&dias, items)
}

/// Putting the groups back one after the other gives the items in their order; each
/// group has items, and two groups in a row never share their key.
pub proof fn ley_grupos(ks: Seq<Seq<char>>, xs: Seq<EntrySummary>)
    requires
        ks.len() == xs.len(),
    ensures
        aplanar(grupos(ks, xs)) == xs,
        forall|i: int| 0 <= i < grupos(ks, xs).len() ==> #[trigger] grupos(ks, xs)[i].1.len() > 0,
        forall|i: int|
            0 <= i < grupos(ks, xs).len() - 1 ==> #[trigger] grupos(ks, xs)[i].0 != grupos(
                ks,
                xs,
            )[i + 1].0,
    decreases xs.len(),
{
    if xs.len() > 0 {
        let ks0 = ks.drop_last();
        let xs0 = xs.drop_last();
        ley_grupos(ks0, xs0);
        let g = grupos(ks0, xs0);
        let k = ks.last();
        let x = xs.last();
        let h = grupos(ks, xs);
        if g.len() > 0 && g.last().0 == k {
            assert(h.drop_last() =~= g.drop_last());
            assert(aplanar(h) =~= aplanar(g.drop_last()) + g.last().1.push(x));
            assert(aplanar(g) == aplanar(g.drop_last()) + g.last().1);
            assert(aplanar(h) =~= xs0.push(x));
            assert(xs0.push(x) =~= xs);
            assert forall|i: int| 0 <= i < h.len() implies #[trigger] h[i].1.len() > 0 by {
                if i < h.len() - 1 {
                    assert(h[i] == g[i]);
                }
            }
            assert forall|i: int| 0 <= i < h.len() - 1 implies #[trigger] h[i].0 != h[i + 1].0 by {
                assert(h[i] == g[i]);
                assert(h[i + 1].0 == g[i + 1].0);
            }
        } else {
            assert(h.drop_last() =~= g);
            assert(aplanar(h) =~= xs0 + seq![x]);
            assert(xs0 + seq![x] =~= xs);
            assert forall|i: int| 0 <= i < h.len() implies #[trigger] h[i].1.len() > 0 by {
                if i < h.len() - 1 {
                    assert(h[i] == g[i]);
                }
            }
            assert forall|i: int| 0 <= i < h.len() - 1 implies #[trigger] h[i].0 != h[i + 1].0 by {
                assert(h[i] == g[i]);
                if i < h.len() - 2 {
                    assert(h[i + 1] == g[i + 1]);
                }
            }
        }
    }
}


fn copiar(o: &Option<String>) -> (r: Option<String>)
    ensures
        r.deep_view() == o.deep_view(),
{
    match o {
        Some(s) => Some(s.clone()),
        None => None,
    }
}

/// A text filter of the page: `None` when empty.
pub open spec fn si_no_vacio(o: Option<Seq<char>>) -> Option<Seq<char>> {
    match o {
        Some(s) => if s.len() > 0 {
            Some(s)
        } else {
            None
        },
        None => None,
    }
}

fn filtrar_vacio(o: Option<String>) -> (r: Option<String>)
    ensures
        r.deep_view() == si_no_vacio(o.deep_view()),
{
    match o {
        Some(s) => if s.unicode_len() > 0 {
            Some(s)
        } else {
            None
        },
        None => None,
    }
}

/// The filters as the page holds them: the selected application and tag, the dates,
/// the search text and the "only pending" box.
#[derive(Clone, Debug)]
pub struct Filtros {
    pub aplicacion: Option<String>,
    pub desde: String,
    pub hasta: String,
    pub busqueda: String,
    pub etiqueta: Option<String>,
    pub solo_pendientes: bool,
}

/// The query the page's filters make: empty texts are no filter, and the box asks
/// for the pending entries only.
pub open spec fn consulta_de_filtros_spec(f: Filtros) -> crate::consulta::ConsultaVista {
    crate::consulta::ConsultaVista {
        application: si_no_vacio(f.aplicacion.deep_view()),
        from: si_no_vacio(Some(f.desde@)),
        to: si_no_vacio(Some(f.hasta@)),
        tag: si_no_vacio(f.etiqueta.deep_view()),
        q: si_no_vacio(Some(f.busqueda@)),
        limit: None,
        cursor: None,
        exported: if f.solo_pendientes {
            Some(false)
        } else {
            None
        },
    }
}

/// A query as the page can hold it: no empty texts, no page size or cursor, and at
/// most the "only pending" state.
pub open spec fn consulta_de_pagina(q: crate::consulta::ConsultaVista) -> bool {
    &&& si_no_vacio(q.application) == q.application
    &&& si_no_vacio(q.from) == q.from
    &&& si_no_vacio(q.to) == q.to
    &&& si_no_vacio(q.tag) == q.tag
    &&& si_no_vacio(q.q) == q.q
    &&& q.limit is None
    &&& q.cursor is None
    &&& q.exported != Some(true)
}

impl Filtros {
    /// The query of these filters (what the list, the thread and the URL read).
    pub fn consulta(&self) -> (r: EntryQuery)
        ensures
            r@ == consulta_de_filtros_spec(*self),
    {
        EntryQuery {
            application: filtrar_vacio(copiar(&self.aplicacion)),
            from: filtrar_vacio(Some(self.desde.clone())),
            to: filtrar_vacio(Some(self.hasta.clone())),
            tag: filtrar_vacio(copiar(&self.etiqueta)),
            q: filtrar_vacio(Some(self.busqueda.clone())),
            limit: None,
            cursor: None,
            exported: if self.solo_pendientes {
                Some(false)
            } else {
                None
            },
        }
    }

    /// The filters a query puts back on the page (when the page opens, and when the
    /// browser goes back).
    pub fn desde_consulta(q: &EntryQuery) -> (r: Filtros)
        ensures
            r.aplicacion.deep_view() == q@.application,
            r.desde@ == match q@.from {
                Some(s) => s,
                None => Seq::empty(),
            },
            r.hasta@ == match q@.to {
                Some(s) => s,
                None => Seq::empty(),
            },
            r.busqueda@ == match q@.q {
                Some(s) => s,
                None => Seq::empty(),
            },
            r.etiqueta.deep_view() == q@.tag,
            r.solo_pendientes == (q.exported == Some(false)),
    {
        Filtros {
            aplicacion: copiar(&q.application),
            desde: match &q.from {
                Some(s) => s.clone(),
                None => String::new(),
            },
            hasta: match &q.to {
                Some(s) => s.clone(),
                None => String::new(),
            },
            busqueda: match &q.q {
                Some(s) => s.clone(),
                None => String::new(),
            },
            etiqueta: copiar(&q.tag),
            solo_pendientes: q.exported == Some(false),
        }
    }
}

impl Filtros {
    /// The filters after "Limpiar filtros": no application, no dates, no tag, not only
    /// the pending ones. The search text is kept: it belongs to the header's box, not to
    /// the side bar.
    pub fn limpiar(&self) -> (r: Filtros)
        ensures
            r.aplicacion is None,
            r.desde@ == Seq::<char>::empty(),
            r.hasta@ == Seq::<char>::empty(),
            r.busqueda@ == self.busqueda@,
            r.etiqueta is None,
            !r.solo_pendientes,
    {
        Filtros {
            aplicacion: None,
            desde: String::new(),
            hasta: String::new(),
            busqueda: self.busqueda.clone(),
            etiqueta: None,
            solo_pendientes: false,
        }
    }
}

/// Going back in the browser restores the same search: the filters put back from the
/// query of a page give that same query again.
pub proof fn ley_filtros_restaurados(q: EntryQuery, f: Filtros)
    requires
        consulta_de_pagina(q@),
        f.aplicacion.deep_view() == q@.application,
        f.desde@ == (match q@.from {
            Some(s) => s,
            None => Seq::<char>::empty(),
        }),
        f.hasta@ == (match q@.to {
            Some(s) => s,
            None => Seq::<char>::empty(),
        }),
        f.busqueda@ == (match q@.q {
            Some(s) => s,
            None => Seq::<char>::empty(),
        }),
        f.etiqueta.deep_view() == q@.tag,
        f.solo_pendientes == (q.exported == Some(false)),
    ensures
        consulta_de_filtros_spec(f) == q@,
{
    let c = consulta_de_filtros_spec(f);
    assert(c.application == q@.application);
    assert(c.from == q@.from);
    assert(c.to == q@.to);
    assert(c.tag == q@.tag);
    assert(c.q == q@.q);
    match q.exported {
        Some(b) => {
            assert(b == false);
        },
        None => {},
    }
    assert(c.exported == q@.exported);
}

/// The API request of the list: the filters with a page size of 200, which stays out
/// of the browser's address.
pub fn url_de_entradas(q: &EntryQuery) -> (r: String)
    ensures
        r@ == "/api/v1/entries?"@ + crate::consulta::urlencoded(crate::consulta::pares_de(
            crate::consulta::ConsultaVista { limit: Some(200), ..q@ },
        )),
{
    let c = EntryQuery {
        application: copiar(&q.application),
        from: copiar(&q.from),
        to: copiar(&q.to),
        tag: copiar(&q.tag),
        q: copiar(&q.q),
        limit: Some(200),
        cursor: q.cursor,
        exported: q.exported,
    };
    let mut s = texto("/api/v1/entries?");
    let t = crate::consulta::query_de(&c);
    s.append(t.as_str());
    s
}

/// The API request of the thread: the same filters on another route.
pub fn url_del_hilo(q: &EntryQuery) -> (r: String)
    ensures
        r@ == "/api/v1/hilo?"@ + crate::consulta::urlencoded(crate::consulta::pares_de(q@)),
{
    let mut s = texto("/api/v1/hilo?");
    let t = crate::consulta::query_de(q);
    s.append(t.as_str());
    s
}

}
