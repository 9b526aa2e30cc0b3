use vstd::prelude::*;

use crate::texto::{
    cadena_de, caracteres, lema_vista_profunda, es_espacio, es_espacio_exec, quitar_espacio_final,
    quitar_espacio_inicial, sin_espacio_final, sin_espacio_inicial, tramo,
};

verus! {

/// The lines of a text, split at every `\n` (the last one may be empty).
pub open spec fn lineas(s: Seq<char>) -> Seq<Seq<char>>
    decreases s.len(),
{
    if s.len() == 0 {
        seq![Seq::<char>::empty()]
    } else {
        let p = lineas(s.drop_last());
        if s.last() == '\n' {
            p.push(Seq::<char>::empty())
        } else {
            p.update(p.len() - 1, p.last().push(s.last()))
        }
    }
}

/// The markdown markers stripped from the start of each line.
pub open spec fn es_marca(c: char) -> bool {
    c == '#' || c == '>' || c == '-' || c == '*' || c == '`' || c == ' '
}

/// `trim_start_matches` with the markdown markers.
pub open spec fn sin_marcas(s: Seq<char>) -> Seq<char>
    decreases s.len(),
{
    if s.len() > 0 && es_marca(s[0]) {
        sin_marcas(s.drop_first())
    } else {
        s
    }
}

/// A line without its leading whitespace and leading markdown markers.
pub open spec fn limpia(l: Seq<char>) -> Seq<char> {
    sin_marcas(sin_espacio_inicial(l))
}

/// `str::split_whitespace`: the maximal runs of non whitespace characters.
pub open spec fn separar(s: Seq<char>) -> Seq<Seq<char>>
    decreases s.len(),
{
    if s.len() == 0 {
        Seq::empty()
    } else {
        let p = separar(s.drop_last());
        let c = s.last();
        if es_espacio(c) {
            p
        } else if s.len() >= 2 && !es_espacio(s[s.len() - 2]) {
            p.update(p.len() - 1, p.last().push(c))
        } else {
            p.push(seq![c])
        }
    }
}

/// The words of a list of lines, each line cleaned first.
pub open spec fn palabras_de(ls: Seq<Seq<char>>) -> Seq<Seq<char>>
    decreases ls.len(),
{
    if ls.len() == 0 {
        Seq::empty()
    } else {
        palabras_de(ls.drop_last()) + separar(limpia(ls.last()))
    }
}

/// Words joined with single spaces.
pub open spec fn unir_espacios(ws: Seq<Seq<char>>) -> Seq<char>
    decreases ws.len(),
{
    if ws.len() == 0 {
        Seq::empty()
    } else if ws.len() == 1 {
        ws[0]
    } else {
        unir_espacios(ws.drop_last()) + seq![' '] + ws.last()
    }
}

/// The plain text of a markdown document: the words of its cleaned lines, one space apart.
pub open spec fn texto_plano(md: Seq<char>) -> Seq<char> {
    unir_espacios(palabras_de(lineas(md)))
}

/// The summary fragment: the plain text when it has at most `max` characters;
/// otherwise its first `max` characters, without trailing whitespace, and `…`.
pub open spec fn fragmento(md: Seq<char>, max: nat) -> Seq<char> {
    let t = texto_plano(md);
    if t.len() <= max {
        t
    } else {
        sin_espacio_final(t.take(max as int)).push('…')
    }
}

proof fn lema_lineas_no_vacias(s: Seq<char>)
    ensures
        lineas(s).len() >= 1,
    decreases s.len(),
{
    if s.len() > 0 {
        lema_lineas_no_vacias(s.drop_last());
    }
}

/// Splits a text into its lines.
fn partir_lineas(cs: &Vec<char>) -> (r: Vec<Vec<char>>)
    ensures
        r.deep_view() == lineas(cs@),
{
    let n = cs.len();
    let mut hechas: Vec<Vec<char>> = Vec::new();
    let mut actual: Vec<char> = Vec::new();
    let mut i: usize = 0;
    assert(cs@.take(0) =~= Seq::<char>::empty());
    assert(hechas.deep_view().push(actual@) =~= lineas(cs@.take(0)));
    while i < n
        invariant
            i <= n == cs@.len(),
            hechas.deep_view().push(actual@) == lineas(cs@.take(i as int)),
        decreases n - i,
    {
        let c = cs[i];
        let ghost antes = hechas.deep_view();
        assert(cs@.take(i + 1).drop_last() =~= cs@.take(i as int));
        assert(cs@.take(i + 1).last() == c);
        if c == '\n' {
            let terminada = actual;
            proof {
                lema_vista_profunda(&terminada);
            }
            hechas.push(terminada);
            actual = Vec::new();
            assert(hechas.deep_view() =~= antes.push(terminada@));
            assert(hechas.deep_view().push(actual@) =~= lineas(cs@.take(i + 1)));
        } else {
            let ghost previo = actual@;
            actual.push(c);
            assert(hechas.deep_view().push(actual@) =~= antes.push(previo).update(
                antes.len() as int,
                previo.push(c),
            ));
        }
        i = i + 1;
    }
    assert(cs@.take(n as int) =~= cs@);
    let ghost antes = hechas.deep_view();
    proof {
        lema_vista_profunda(&actual);
    }
    hechas.push(actual);
    assert(hechas.deep_view() =~= antes.push(actual@));
    hechas
}

proof fn lema_sin_marcas_tramo(s: Seq<char>, i: int)
    requires
        0 <= i <= s.len(),
        forall|j: int| 0 <= j < i ==> es_marca(#[trigger] s[j]),
    ensures
        sin_marcas(s) == sin_marcas(s.subrange(i, s.len() as int)),
    decreases i,
{
    if i > 0 {
        assert(es_marca(s[0]));
        let t = s.drop_first();
        assert forall|j: int| 0 <= j < i - 1 implies es_marca(#[trigger] t[j]) by {
            assert(t[j] == s[j + 1]);
        }
        lema_sin_marcas_tramo(t, i - 1);
        assert(t.subrange(i - 1, t.len() as int) =~= s.subrange(i, s.len() as int));
    } else {
        assert(s.subrange(0, s.len() as int) =~= s);
    }
}

fn es_marca_exec(c: char) -> (r: bool)
    ensures
        r == es_marca(c),
{
    c == '#' || c == '>' || c == '-' || c == '*' || c == '`' || c == ' '
}

/// Strips leading whitespace, then leading markdown markers.
fn limpiar_linea(l: &Vec<char>) -> (r: Vec<char>)
    ensures
        r@ == limpia(l@),
{
    let a = quitar_espacio_inicial(l);
    let n = a.len();
    let mut i: usize = 0;
    while i < n && es_marca_exec(a[i])
        invariant
            i <= n == a@.len(),
            forall|j: int| 0 <= j < i ==> es_marca(#[trigger] a@[j]),
        decreases n - i,
    {
        i = i + 1;
    }
    proof {
        lema_sin_marcas_tramo(a@, i as int);
    }
    tramo(&a, i, n)
}

proof fn lema_separar_no_vacio(s: Seq<char>)
    requires
        s.len() > 0,
        !es_espacio(s.last()),
    ensures
        separar(s).len() > 0,
    decreases s.len(),
{
    if s.len() >= 2 && !es_espacio(s[s.len() - 2]) {
        assert(s.drop_last().last() == s[s.len() - 2]);
        lema_separar_no_vacio(s.drop_last());
    }
}

/// Appends the whitespace separated words of `s` to `ws`.
fn anadir_palabras(s: &Vec<char>, ws: &mut Vec<Vec<char>>)
    ensures
        final(ws).deep_view() == old(ws).deep_view() + separar(s@),
{
    let n = s.len();
    let ghost base = ws.deep_view();
    let mut actual: Vec<char> = Vec::new();
    let mut i: usize = 0;
    assert(s@.take(0) =~= Seq::<char>::empty());
    assert(base + separar(s@.take(0)) =~= ws.deep_view());
    while i < n
        invariant
            i <= n == s@.len(),
            base + separar(s@.take(i as int)) == ws.deep_view() + (if actual@.len() > 0 {
                seq![actual@]
            } else {
                Seq::<Seq<char>>::empty()
            }),
            actual@.len() > 0 <==> (i > 0 && !es_espacio(s@[i - 1])),
        decreases n - i,
    {
        let c = s[i];
        let ghost pre = s@.take(i as int);
        let ghost post = s@.take(i + 1);
        let ghost v0 = ws.deep_view();
        let ghost a0 = actual@;
        assert(post.drop_last() =~= pre);
        assert(post.last() == c);
        if i > 0 {
            assert(post[post.len() - 2] == s@[i - 1]);
        }
        if es_espacio_exec(c) {
            if actual.len() > 0 {
                let palabra = actual;
                proof {
                    lema_vista_profunda(&palabra);
                }
                ws.push(palabra);
                actual = Vec::new();
                assert(ws.deep_view() =~= v0.push(palabra@));
                assert(ws.deep_view() + Seq::<Seq<char>>::empty() =~= v0 + seq![a0]);
            }
            assert(separar(post) == separar(pre));
        } else {
            let tenia = actual.len() > 0;
            actual.push(c);
            if tenia {
                let ghost p = separar(pre);
                proof {
                    lema_separar_no_vacio(pre);
                }
                assert(separar(post) == p.update(p.len() - 1, p.last().push(c)));
                assert(base + p == v0 + seq![a0]);
                assert((base + p).last() == a0);
                assert(p.len() > 0);
                assert(p.last() == a0);
                assert(actual@ =~= a0.push(c));
                assert(base + p.update(p.len() - 1, p.last().push(c)) =~= (base + p).update(
                    base.len() + p.len() - 1,
                    a0.push(c),
                ));
                assert((v0 + seq![a0]).update(v0.len() as int, a0.push(c)) =~= v0 + seq![actual@]);
            } else {
                assert(separar(post) == separar(pre).push(seq![c]));
                assert(actual@ =~= seq![c]);
                assert(base + separar(pre).push(seq![c]) =~= v0 + seq![actual@]);
            }
        }
        i = i + 1;
    }
    assert(s@.take(n as int) =~= s@);
    if actual.len() > 0 {
        let ghost v0 = ws.deep_view();
        let palabra = actual;
        proof {
            lema_vista_profunda(&palabra);
        }
        ws.push(palabra);
        assert(ws.deep_view() =~= v0 + seq![palabra@]);
    } else {
        assert(ws.deep_view() + Seq::<Seq<char>>::empty() =~= ws.deep_view());
    }
}

/// Joins words with single spaces.
fn unir_con_espacios(ws: &Vec<Vec<char>>) -> (r: Vec<char>)
    ensures
        r@ == unir_espacios(ws.deep_view()),
{
    let n = ws.len();
    let mut r: Vec<char> = Vec::new();
    let mut k: usize = 0;
    assert(ws.deep_view().take(0) =~= Seq::<Seq<char>>::empty());
    while k < n
        invariant
            k <= n == ws@.len(),
            r@ == unir_espacios(ws.deep_view().take(k as int)),
        decreases n - k,
    {
        let ghost t = ws.deep_view().take(k + 1);
        assert(t.drop_last() =~= ws.deep_view().take(k as int));
        assert(t.last() == ws@[k as int]@);
        if k > 0 {
            r.push(' ');
        }
        let palabra = &ws[k];
        let m = palabra.len();
        let ghost r0 = r@;
        let mut j: usize = 0;
        while j < m
            invariant
                j <= m == palabra@.len(),
                r@ == r0 + palabra@.take(j as int),
            decreases m - j,
        {
            r.push(palabra[j]);
            j = j + 1;
            assert(r@ =~= r0 + palabra@.take(j as int));
        }
        assert(palabra@.take(m as int) =~= palabra@);
        if k == 0 {
            assert(r@ =~= unir_espacios(t));
        } else {
            assert(r@ =~= unir_espacios(t.drop_last()) + seq![' '] + t.last());
        }
        k = k + 1;
    }
    assert(ws.deep_view().take(n as int) =~= ws.deep_view());
    r
}

/// A plain text fragment of a markdown document, for the summaries: markdown markers
/// at the start of lines removed, whitespace collapsed, cut at `max_chars` characters.
pub fn snippet(md: &str, max_chars: usize) -> (r: String)
    ensures
        r@ == fragmento(md@, max_chars as nat),
{
    let cs = caracteres(md);
    let ls = partir_lineas(&cs);
    let nl = ls.len();
    let mut ws: Vec<Vec<char>> = Vec::new();
    let mut k: usize = 0;
    assert(ls.deep_view().take(0) =~= Seq::<Seq<char>>::empty());
    while k < nl
        invariant
            k <= nl == ls@.len(),
            ws.deep_view() == palabras_de(ls.deep_view().take(k as int)),
        decreases nl - k,
    {
        let l = limpiar_linea(&ls[k]);
        anadir_palabras(&l, &mut ws);
        let ghost t = ls.deep_view().take(k + 1);
        assert(t.drop_last() =~= ls.deep_view().take(k as int));
        assert(t.last() == ls@[k as int]@);
        k = k + 1;
    }
    assert(ls.deep_view().take(nl as int) =~= ls.deep_view());
    let texto = unir_con_espacios(&ws);
    if texto.len() <= max_chars {
        cadena_de(&texto)
    } else {
        let corto = tramo(&texto, 0, max_chars);
        assert(corto@ =~= texto@.take(max_chars as int));
        let mut fin = quitar_espacio_final(&corto);
        fin.push('…');
        cadena_de(&fin)
    }
}

/// A fragment never has more than `max` characters plus the ellipsis.
pub proof fn ley_fragmento_acotado(md: Seq<char>, max: nat)
    ensures
        fragmento(md, max).len() <= max + 1,
        texto_plano(md).len() <= max ==> fragmento(md, max) == texto_plano(md),
{
    let t = texto_plano(md);
    if t.len() > max {
        lema_sin_espacio_final_corto(t.take(max as int));
    }
}

proof fn lema_sin_espacio_final_corto(s: Seq<char>)
    ensures
        sin_espacio_final(s).len() <= s.len(),
    decreases s.len(),
{
    if s.len() > 0 && es_espacio(s.last()) {
        lema_sin_espacio_final_corto(s.drop_last());
    }
}


/// The characters a list of texts takes, each with one separator after it.
pub open spec fn peso(ws: Seq<Seq<char>>) -> int
    decreases ws.len(),
{
    if ws.len() == 0 {
        0
    } else {
        peso(ws.drop_last()) + ws.last().len() + 1
    }
}

proof fn lema_peso_concat(a: Seq<Seq<char>>, b: Seq<Seq<char>>)
    ensures
        peso(a + b) == peso(a) + peso(b),
    decreases b.len(),
{
    if b.len() == 0 {
        assert(a + b =~= a);
    } else {
        assert((a + b).drop_last() =~= a + b.drop_last());
        lema_peso_concat(a, b.drop_last());
    }
}

proof fn lema_peso_no_negativo(ws: Seq<Seq<char>>)
    ensures
        peso(ws) >= 0,
    decreases ws.len(),
{
    if ws.len() > 0 {
        lema_peso_no_negativo(ws.drop_last());
    }
}

proof fn lema_largo_unir(ws: Seq<Seq<char>>)
    ensures
        ws.len() == 0 ==> unir_espacios(ws).len() == 0,
        ws.len() > 0 ==> unir_espacios(ws).len() + 1 == peso(ws),
    decreases ws.len(),
{
    if ws.len() == 1 {
        assert(ws.drop_last() =~= Seq::<Seq<char>>::empty());
        assert(peso(ws.drop_last()) == 0);
        assert(ws.last() == ws[0]);
    } else if ws.len() > 1 {
        lema_largo_unir(ws.drop_last());
    }
}

proof fn lema_peso_separar(s: Seq<char>)
    ensures
        peso(separar(s)) <= s.len() + (if s.len() > 0 && !es_espacio(s.last()) {
            1int
        } else {
            0
        }),
    decreases s.len(),
{
    if s.len() > 0 {
        let pre = s.drop_last();
        lema_peso_separar(pre);
        let p = separar(pre);
        let c = s.last();
        if !es_espacio(c) {
            if s.len() >= 2 && !es_espacio(s[s.len() - 2]) {
                assert(pre.last() == s[s.len() - 2]);
                lema_separar_no_vacio(pre);
                let q = p.update(p.len() - 1, p.last().push(c));
                assert(q.drop_last() =~= p.drop_last());
            } else {
                assert(p.push(seq![c]).drop_last() =~= p);
            }
        }
    }
}

proof fn lema_sin_marcas_corto(s: Seq<char>)
    ensures
        sin_marcas(s).len() <= s.len(),
    decreases s.len(),
{
    if s.len() > 0 && es_marca(s[0]) {
        lema_sin_marcas_corto(s.drop_first());
    }
}

proof fn lema_sin_espacio_inicial_corto(s: Seq<char>)
    ensures
        sin_espacio_inicial(s).len() <= s.len(),
    decreases s.len(),
{
    if s.len() > 0 && es_espacio(s[0]) {
        lema_sin_espacio_inicial_corto(s.drop_first());
    }
}

proof fn lema_peso_lineas(s: Seq<char>)
    ensures
        peso(lineas(s)) == s.len() + 1,
    decreases s.len(),
{
    if s.len() == 0 {
        let u = seq![Seq::<char>::empty()];
        assert(u.drop_last() =~= Seq::<Seq<char>>::empty());
        assert(peso(u.drop_last()) == 0);
        assert(peso(u) == 1);
    } else {
        lema_peso_lineas(s.drop_last());
        lema_lineas_no_vacias(s.drop_last());
        let p = lineas(s.drop_last());
        if s.last() == '\n' {
            let q = p.push(Seq::<char>::empty());
            assert(q.drop_last() =~= p);
            assert(peso(q) == peso(p) + 1);
        } else {
            let q = p.update(p.len() - 1, p.last().push(s.last()));
            assert(q.drop_last() =~= p.drop_last());
            assert(q.last() == p.last().push(s.last()));
            assert(peso(q) == peso(q.drop_last()) + q.last().len() + 1);
            assert(peso(p) == peso(p.drop_last()) + p.last().len() + 1);
        }
    }
}

proof fn lema_peso_palabras(ls: Seq<Seq<char>>)
    ensures
        peso(palabras_de(ls)) <= peso(ls),
    decreases ls.len(),
{
    if ls.len() > 0 {
        lema_peso_palabras(ls.drop_last());
        let l = ls.last();
        lema_peso_concat(palabras_de(ls.drop_last()), separar(limpia(l)));
        lema_peso_separar(limpia(l));
        lema_sin_espacio_inicial_corto(l);
        lema_sin_marcas_corto(sin_espacio_inicial(l));
    }
}

/// The plain text of a document is never longer than the document.
pub proof fn ley_texto_plano_no_crece(md: Seq<char>)
    ensures
        texto_plano(md).len() <= md.len(),
{
    let ws = palabras_de(lineas(md));
    lema_largo_unir(ws);
    lema_peso_palabras(lineas(md));
    lema_peso_lineas(md);
}

/// The fragment of a document is cut from its whole plain text: with no practical limit
/// the fragment is that whole text, and with a limit it is that text when it fits, else
/// its first `max` characters without trailing whitespace and `…`.
pub proof fn ley_fragmento_del_texto_entero(md: Seq<char>, max: nat)
    requires
        md.len() <= usize::MAX,
    ensures
        fragmento(md, usize::MAX as nat) == texto_plano(md),
        fragmento(md, max) == (if fragmento(md, usize::MAX as nat).len() <= max {
            fragmento(md, usize::MAX as nat)
        } else {
            sin_espacio_final(fragmento(md, usize::MAX as nat).take(max as int)).push('…')
        }),
        fragmento(md, max).len() <= max + 1,
{
    ley_texto_plano_no_crece(md);
    ley_fragmento_acotado(md, max);
}

/// Name for what `ammonia::Builder::default().add_generic_attributes(["class"])`
/// `.clean(html)` writes: the HTML without scripts, event handlers and the other
/// tags and attributes ammonia's defaults refuse, keeping `class` on every tag.
pub uninterp spec fn html_saneado(html: Seq<char>) -> Seq<char>;

/// Calls ammonia's default cleaner, with `class` kept on every tag, on some HTML.
/// Claims only that the result is the named function of the HTML.
#[verifier::external_body]
fn limpiar_html(html: &str) -> (r: String)
    ensures
        r@ == html_saneado(html@),
{
    ammonia::Builder::default().add_generic_attributes(["class"]).clean(html).to_string()
}

/// Sanitises the HTML rendered from an agent's markdown, keeping `class` (for the
/// `language-*` classes that highlighting and mermaid read).
pub fn sanitize(html: &str) -> (r: String)
    ensures
        r@ == html_saneado(html@),
{
    limpiar_html(html)
}

proof fn lema_primera_linea(s: Seq<char>)
    requires
        s.len() > 0,
        s[0] != '\n',
    ensures
        lineas(s)[0].len() > 0,
        lineas(s)[0][0] == s[0],
    decreases s.len(),
{
    lema_lineas_no_vacias(s);
    if s.len() == 1 {
        assert(s.drop_last() =~= Seq::<char>::empty());
        assert(lineas(s.drop_last()) =~= seq![Seq::<char>::empty()]);
    } else {
        let pre = s.drop_last();
        assert(pre[0] == s[0]);
        lema_primera_linea(pre);
        lema_lineas_no_vacias(pre);
        let p = lineas(pre);
        if s.last() != '\n' {
            let q = p.update(p.len() - 1, p.last().push(s.last()));
            if p.len() == 1 {
                assert(q[0] == p[0].push(s.last()));
            } else {
                assert(q[0] == p[0]);
            }
        }
    }
}

proof fn lema_primera_palabra(s: Seq<char>)
    requires
        s.len() > 0,
        !es_espacio(s[0]),
    ensures
        separar(s).len() > 0,
        separar(s)[0].len() > 0,
        separar(s)[0][0] == s[0],
    decreases s.len(),
{
    if s.len() == 1 {
        assert(s.drop_last() =~= Seq::<char>::empty());
        assert(s.last() == s[0]);
    } else {
        let pre = s.drop_last();
        assert(pre[0] == s[0]);
        lema_primera_palabra(pre);
        let p = separar(pre);
        let c = s.last();
        if !es_espacio(c) {
            if s.len() >= 2 && !es_espacio(s[s.len() - 2]) {
                let q = p.update(p.len() - 1, p.last().push(c));
                if p.len() == 1 {
                    assert(q[0] == p[0].push(c));
                } else {
                    assert(q[0] == p[0]);
                }
            } else {
                assert(p.push(seq![c])[0] == p[0]);
            }
        }
    }
}

proof fn lema_palabras_primera_linea(ls: Seq<Seq<char>>)
    requires
        ls.len() > 0,
    ensures
        palabras_de(ls) == separar(limpia(ls[0])) + palabras_de(ls.drop_first()),
    decreases ls.len(),
{
    if ls.len() == 1 {
        assert(ls.drop_last() =~= Seq::<Seq<char>>::empty());
        assert(ls.drop_first() =~= Seq::<Seq<char>>::empty());
        assert(ls.last() == ls[0]);
        assert(palabras_de(ls) =~= separar(limpia(ls[0])) + palabras_de(ls.drop_first()));
    } else {
        let pre = ls.drop_last();
        lema_palabras_primera_linea(pre);
        assert(pre[0] == ls[0]);
        assert(pre.drop_first() =~= ls.drop_first().drop_last());
        assert(ls.drop_first().last() == ls.last());
        assert(palabras_de(ls) =~= separar(limpia(ls[0])) + palabras_de(ls.drop_first()));
    }
}

proof fn lema_primera_letra_unida(ws: Seq<Seq<char>>)
    requires
        ws.len() > 0,
        ws[0].len() > 0,
    ensures
        unir_espacios(ws).len() > 0,
        unir_espacios(ws)[0] == ws[0][0],
    decreases ws.len(),
{
    if ws.len() > 1 {
        let pre = ws.drop_last();
        assert(pre[0] == ws[0]);
        lema_primera_letra_unida(pre);
    }
}

proof fn lema_sin_espacio_final_conserva_inicio(s: Seq<char>)
    requires
        s.len() > 0,
        !es_espacio(s[0]),
    ensures
        sin_espacio_final(s).len() > 0,
        sin_espacio_final(s)[0] == s[0],
    decreases s.len(),
{
    if s.len() > 1 && es_espacio(s.last()) {
        assert(s.drop_last()[0] == s[0]);
        lema_sin_espacio_final_conserva_inicio(s.drop_last());
    }
}

/// Only whitespace and the markers `#`, `>`, `-`, `*` and `` ` `` are stripped from the
/// start of a line: a document that starts with a letter or a digit (say
/// "1. Instalar") gives a plain text, and a fragment of any positive size, that start
/// with that same character.
pub proof fn ley_inicio_alfanumerico_se_conserva(md: Seq<char>, max: nat)
    requires
        md.len() > 0,
        crate::texto::es_alfanumerico(md[0]),
    ensures
        texto_plano(md).len() > 0,
        texto_plano(md)[0] == md[0],
        max > 0 ==> fragmento(md, max).len() > 0 && fragmento(md, max)[0] == md[0],
{
    lema_primera_linea(md);
    lema_lineas_no_vacias(md);
    let ls = lineas(md);
    let l = ls[0];
    assert(sin_espacio_inicial(l) == l);
    assert(sin_marcas(l) == l);
    assert(limpia(l) == l);
    lema_primera_palabra(l);
    lema_palabras_primera_linea(ls);
    let ws = palabras_de(ls);
    assert(ws[0] == separar(l)[0]);
    lema_primera_letra_unida(ws);
    let t = texto_plano(md);
    if max > 0 && t.len() > max {
        let c = t.take(max as int);
        assert(c[0] == t[0]);
        lema_sin_espacio_final_conserva_inicio(c);
        assert(sin_espacio_final(c).push('…')[0] == sin_espacio_final(c)[0]);
    }
}
}
