use vstd::prelude::*;

use crate::texto::{cadena_de, caracteres, es_alfanumerico, es_alfanumerico_exec, minuscula, minuscula_exec};

verus! {

/// The words of `s`: its maximal runs of ASCII letters and digits, lowercased,
/// in order of appearance.
pub open spec fn palabras(s: Seq<char>) -> Seq<Seq<char>>
    decreases s.len(),
{
    if s.len() == 0 {
        Seq::empty()
    } else {
        let p = palabras(s.drop_last());
        let c = s.last();
        if !es_alfanumerico(c) {
            p
        } else if s.len() >= 2 && es_alfanumerico(s[s.len() - 2]) {
            p.update(p.len() - 1, p.last().push(minuscula(c)))
        } else {
            p.push(seq![minuscula(c)])
        }
    }
}

/// The words joined with single dashes.
pub open spec fn unir(ws: Seq<Seq<char>>) -> Seq<char>
    decreases ws.len(),
{
    if ws.len() == 0 {
        Seq::empty()
    } else if ws.len() == 1 {
        ws[0]
    } else {
        unir(ws.drop_last()) + seq!['-'] + ws.last()
    }
}

/// The slug of a free text: its words joined by dashes, or `sin-nombre` when it has none.
pub open spec fn slug(s: Seq<char>) -> Seq<char> {
    if palabras(s).len() == 0 {
        "sin-nombre"@
    } else {
        unir(palabras(s))
    }
}

/// The characters a slug is made of: lowercase ASCII letters, digits and `-`.
pub open spec fn es_caracter_de_slug(c: char) -> bool {
    ('0' <= c && c <= '9') || ('a' <= c && c <= 'z') || c == '-'
}

/// A well formed slug: not empty, only `a-z`, `0-9` and `-`, no dash at either end
/// and never two dashes in a row.
pub open spec fn es_slug(t: Seq<char>) -> bool {
    &&& t.len() > 0
    &&& forall|i: int| 0 <= i < t.len() ==> #[trigger] es_caracter_de_slug(t[i])
    &&& t[0] != '-'
    &&& t.last() != '-'
    &&& forall|i: int| 0 <= i < t.len() - 1 ==> !(#[trigger] t[i] == '-' && t[i + 1] == '-')
}

/// A word of a slug: non-empty, lowercase ASCII letters and digits only.
pub open spec fn palabra_valida(w: Seq<char>) -> bool {
    &&& w.len() > 0
    &&& forall|i: int|
        0 <= i < w.len() ==> ('0' <= #[trigger] w[i] && w[i] <= '9') || ('a' <= w[i] && w[i]
            <= 'z')
}

proof fn lema_palabras(s: Seq<char>)
    ensures
        forall|k: int| 0 <= k < palabras(s).len() ==> palabra_valida(#[trigger] palabras(s)[k]),
        s.len() > 0 && es_alfanumerico(s.last()) ==> palabras(s).len() > 0,
        palabras(s).len() > 0 <==> exists|i: int| 0 <= i < s.len() && es_alfanumerico(#[trigger] s[i]),
    decreases s.len(),
{
    if s.len() > 0 {
        let t = s.drop_last();
        lema_palabras(t);
        let p = palabras(t);
        let c = s.last();
        if es_alfanumerico(c) {
            assert(es_alfanumerico(s[s.len() - 1]));
            if s.len() >= 2 && es_alfanumerico(s[s.len() - 2]) {
                assert(es_alfanumerico(t[t.len() - 1]));
                assert(p.len() > 0);
                let w = p.last().push(minuscula(c));
                assert(palabra_valida(w)) by {
                    assert(palabra_valida(p[p.len() - 1]));
                    assert forall|i: int| 0 <= i < w.len() implies ('0' <= #[trigger] w[i]
                        && w[i] <= '9') || ('a' <= w[i] && w[i] <= 'z') by {
                        if i < w.len() - 1 {
                            assert(w[i] == p[p.len() - 1][i]);
                        }
                    }
                }
            } else {
                let w = seq![minuscula(c)];
                assert(palabra_valida(w));
            }
        } else {
            if palabras(s).len() > 0 {
                let i = choose|i: int| 0 <= i < t.len() && es_alfanumerico(#[trigger] t[i]);
                assert(s[i] == t[i]);
            }
            if exists|i: int| 0 <= i < s.len() && es_alfanumerico(#[trigger] s[i]) {
                let i = choose|i: int| 0 <= i < s.len() && es_alfanumerico(#[trigger] s[i]);
                assert(i < s.len() - 1);
                assert(t[i] == s[i]);
            }
        }
        if es_alfanumerico(c) {
            assert(palabras(s).len() > 0);
        }
        if exists|i: int| 0 <= i < t.len() && es_alfanumerico(#[trigger] t[i]) {
            let i = choose|i: int| 0 <= i < t.len() && es_alfanumerico(#[trigger] t[i]);
            assert(s[i] == t[i]);
        }
    }
}

proof fn lema_unir_no_vacio(ws: Seq<Seq<char>>)
    requires
        ws.len() > 0,
        forall|k: int| 0 <= k < ws.len() ==> palabra_valida(#[trigger] ws[k]),
    ensures
        unir(ws).len() > 0,
        unir(ws).last() != '-',
        unir(ws)[0] != '-',
    decreases ws.len(),
{
    if ws.len() > 1 {
        assert(palabra_valida(ws[0]));
        assert(palabra_valida(ws[ws.len() - 1]));
        lema_unir_no_vacio(ws.drop_last());
        assert(ws.drop_last()[0] == ws[0]);
        let u = unir(ws);
        assert(u[0] == unir(ws.drop_last())[0]);
        assert(u.last() == ws.last().last());
        assert(('0' <= ws.last()[ws.last().len() - 1] && ws.last()[ws.last().len() - 1] <= '9') || (
        'a' <= ws.last()[ws.last().len() - 1] && ws.last()[ws.last().len() - 1] <= 'z'));
    } else {
        assert(palabra_valida(ws[0]));
        assert(('0' <= ws[0][0] && ws[0][0] <= '9') || ('a' <= ws[0][0] && ws[0][0] <= 'z'));
        assert(('0' <= ws[0][ws[0].len() - 1] && ws[0][ws[0].len() - 1] <= '9') || ('a'
            <= ws[0][ws[0].len() - 1] && ws[0][ws[0].len() - 1] <= 'z'));
    }
}

/// Converts a free text into a slug ("Portal Alumnos" -> "portal-alumnos").
pub fn slugify(input: &str) -> (r: String)
    ensures
        r@ == slug(input@),
{
    let cs = caracteres(input);
    let n = cs.len();
    let mut out: Vec<char> = Vec::new();
    let mut prev_dash = false;
    let mut i: usize = 0;
    assert(cs@.take(0) =~= Seq::<char>::empty());
    while i < n
        invariant
            i <= n,
            n == cs@.len(),
            out@ == unir(palabras(cs@.take(i as int))) + (if prev_dash {
                seq!['-']
            } else {
                Seq::<char>::empty()
            }),
            prev_dash == (palabras(cs@.take(i as int)).len() > 0 && !es_alfanumerico(
                cs@[i - 1],
            )),
        decreases n - i,
    {
        let ch = cs[i];
        let ghost pre = cs@.take(i as int);
        let ghost post = cs@.take(i + 1);
        proof {
            assert(post.drop_last() =~= pre);
            assert(post.last() == ch);
            lema_palabras(pre);
            if i > 0 {
                assert(pre.last() == cs@[i - 1]);
                assert(post[post.len() - 2] == cs@[i - 1]);
            }
        }
        if es_alfanumerico_exec(ch) {
            let m = minuscula_exec(ch);
            out.push(m);
            prev_dash = false;
            proof {
                let p = palabras(pre);
                if i >= 1 && es_alfanumerico(cs@[i - 1]) {
                    assert(p.len() > 0);
                    let q = p.update(p.len() - 1, p.last().push(m));
                    assert(palabras(post) == q);
                    if p.len() > 1 {
                        assert(q.drop_last() =~= p.drop_last());
                    }
                    assert(unir(q) =~= unir(p).push(m));
                } else {
                    assert(palabras(post) == p.push(seq![m]));
                    if p.len() > 0 {
                        assert(p.push(seq![m]).drop_last() =~= p);
                    }
                    assert(unir(p.push(seq![m])) =~= out@);
                }
            }
        } else if !prev_dash && out.len() > 0 {
            out.push('-');
            prev_dash = true;
            proof {
                assert(palabras(post) == palabras(pre));
                if palabras(pre).len() == 0 {
                    assert(unir(palabras(pre)).len() == 0);
                }
            }
        } else {
            proof {
                assert(palabras(post) == palabras(pre));
                if !prev_dash {
                    if palabras(pre).len() > 0 {
                        lema_unir_no_vacio(palabras(pre));
                    }
                }
            }
        }
        i = i + 1;
    }
    assert(cs@.take(n as int) =~= cs@);
    if prev_dash {
        out.pop();
        assert(out@ =~= unir(palabras(cs@)));
    }
    if out.len() == 0 {
        proof {
            if palabras(cs@).len() > 0 {
                lema_palabras(cs@);
                lema_unir_no_vacio(palabras(cs@));
            }
        }
        let sin = caracteres("sin-nombre");
        cadena_de(&sin)
    } else {
        proof {
            if palabras(cs@).len() == 0 {
                assert(unir(palabras(cs@)).len() == 0);
            }
        }
        cadena_de(&out)
    }
}


proof fn lema_unir_es_slug(ws: Seq<Seq<char>>)
    requires
        ws.len() > 0,
        forall|k: int| 0 <= k < ws.len() ==> palabra_valida(#[trigger] ws[k]),
    ensures
        es_slug(unir(ws)),
    decreases ws.len(),
{
    lema_unir_no_vacio(ws);
    let u = unir(ws);
    if ws.len() == 1 {
        assert(palabra_valida(ws[0]));
        assert forall|i: int| 0 <= i < u.len() implies #[trigger] es_caracter_de_slug(u[i]) by {
            assert(('0' <= ws[0][i] && ws[0][i] <= '9') || ('a' <= ws[0][i] && ws[0][i] <= 'z'));
        }
        assert forall|i: int| 0 <= i < u.len() - 1 implies !(#[trigger] u[i] == '-' && u[i + 1]
            == '-') by {
            assert(('0' <= ws[0][i] && ws[0][i] <= '9') || ('a' <= ws[0][i] && ws[0][i] <= 'z'));
        }
    } else {
        let d = ws.drop_last();
        assert forall|k: int| 0 <= k < d.len() implies palabra_valida(#[trigger] d[k]) by {
            assert(d[k] == ws[k]);
        }
        lema_unir_es_slug(d);
        lema_unir_no_vacio(d);
        let a = unir(d);
        let w = ws.last();
        assert(palabra_valida(ws[ws.len() - 1]));
        assert(u =~= a + seq!['-'] + w);
        assert forall|i: int| 0 <= i < u.len() implies #[trigger] es_caracter_de_slug(u[i]) by {
            if i < a.len() {
                assert(u[i] == a[i]);
                assert(es_caracter_de_slug(a[i]));
            } else if i > a.len() {
                assert(u[i] == w[i - a.len() - 1]);
                assert(('0' <= w[i - a.len() - 1] && w[i - a.len() - 1] <= '9') || ('a' <= w[i
                    - a.len() - 1] && w[i - a.len() - 1] <= 'z'));
            }
        }
        assert forall|i: int| 0 <= i < u.len() - 1 implies !(#[trigger] u[i] == '-' && u[i + 1]
            == '-') by {
            if i < a.len() - 1 {
                assert(u[i] == a[i] && u[i + 1] == a[i + 1]);
            } else if i == a.len() - 1 {
                assert(u[i] == a.last());
            } else if i == a.len() {
                assert(u[i + 1] == w[0]);
                assert(('0' <= w[0] && w[0] <= '9') || ('a' <= w[0] && w[0] <= 'z'));
            } else {
                assert(u[i] == w[i - a.len() - 1]);
                assert(('0' <= w[i - a.len() - 1] && w[i - a.len() - 1] <= '9') || ('a' <= w[i
                    - a.len() - 1] && w[i - a.len() - 1] <= 'z'));
            }
        }
    }
}

proof fn lema_sin_nombre()
    ensures
        es_slug("sin-nombre"@),
        palabras("sin-nombre"@).len() > 0,
        unir(palabras("sin-nombre"@)) == "sin-nombre"@,
{
    reveal_strlit("sin-nombre");
    let t = "sin-nombre"@;
    assert(t =~= seq!['s', 'i', 'n', '-', 'n', 'o', 'm', 'b', 'r', 'e']);
    lema_slug_reconstruido(t);
}

/// Reading a dash separated text of lowercase words back through `palabras` and
/// `unir` gives the same text (with the dash it may end in).
proof fn lema_slug_reconstruido(t: Seq<char>)
    requires
        forall|i: int| 0 <= i < t.len() ==> #[trigger] es_caracter_de_slug(t[i]),
        t.len() > 0 ==> t[0] != '-',
        forall|i: int| 0 <= i < t.len() - 1 ==> !(#[trigger] t[i] == '-' && t[i + 1] == '-'),
    ensures
        unir(palabras(t)) + (if t.len() > 0 && t.last() == '-' {
            seq!['-']
        } else {
            Seq::<char>::empty()
        }) == t,
        t.len() > 0 ==> palabras(t).len() > 0,
    decreases t.len(),
{
    if t.len() > 0 {
        let u = t.drop_last();
        assert forall|i: int| 0 <= i < u.len() implies #[trigger] es_caracter_de_slug(u[i]) by {
            assert(u[i] == t[i]);
        }
        assert forall|i: int| 0 <= i < u.len() - 1 implies !(#[trigger] u[i] == '-' && u[i + 1]
            == '-') by {
            assert(u[i] == t[i] && u[i + 1] == t[i + 1]);
        }
        if u.len() > 0 {
            assert(u[0] == t[0]);
        }
        lema_slug_reconstruido(u);
        lema_palabras(u);
        let c = t.last();
        assert(es_caracter_de_slug(t[t.len() - 1]));
        let p = palabras(u);
        if c == '-' {
            assert(u.len() > 0);
            assert(u.last() == t[t.len() - 2]);
            assert(u.last() != '-');
            assert(palabras(t) == p);
            assert(t =~= u + seq!['-']);
        } else {
            assert(minuscula(c) == c);
            if u.len() == 0 {
                assert(palabras(t) == seq![seq![c]]);
                assert(t =~= seq![c]);
            } else if u.last() == '-' {
                assert(es_alfanumerico(t[t.len() - 2]) == false);
                assert(palabras(t) == p.push(seq![c]));
                assert(p.push(seq![c]).drop_last() =~= p);
                assert(t =~= u + seq![c]);
            } else {
                assert(u.last() == t[t.len() - 2]);
                assert(es_caracter_de_slug(u[u.len() - 1]));
                assert(es_alfanumerico(t[t.len() - 2]));
                let q = p.update(p.len() - 1, p.last().push(c));
                assert(palabras(t) == q);
                if p.len() > 1 {
                    assert(q.drop_last() =~= p.drop_last());
                }
                assert(unir(q) =~= unir(p).push(c));
                assert(t =~= u.push(c));
            }
        }
    }
}

/// Every slug is well formed: not empty, only lowercase letters, digits and single
/// inner dashes.
pub proof fn ley_slug_bien_formado(s: Seq<char>)
    ensures
        es_slug(slug(s)),
{
    lema_palabras(s);
    if palabras(s).len() == 0 {
        lema_sin_nombre();
    } else {
        lema_unir_es_slug(palabras(s));
    }
}

/// Slugifying a slug changes nothing.
pub proof fn ley_slug_idempotente(s: Seq<char>)
    ensures
        slug(slug(s)) == slug(s),
{
    ley_slug_bien_formado(s);
    let t = slug(s);
    lema_slug_reconstruido(t);
}

/// `to_ascii_lowercase` on each character.
pub open spec fn minusculas(s: Seq<char>) -> Seq<char> {
    s.map_values(|c: char| minuscula(c))
}

proof fn lema_palabras_minusculas(s: Seq<char>)
    ensures
        palabras(minusculas(s)) == palabras(s),
    decreases s.len(),
{
    if s.len() > 0 {
        let m = minusculas(s);
        assert(m.drop_last() =~= minusculas(s.drop_last()));
        lema_palabras_minusculas(s.drop_last());
        assert(m.last() == minuscula(s.last()));
        if s.len() >= 2 {
            assert(m[m.len() - 2] == minuscula(s[s.len() - 2]));
        }
    }
}

/// The slug does not depend on ASCII case: "Portal Alumnos" and "portal alumnos"
/// name the same application.
pub proof fn ley_slug_ignora_mayusculas(s: Seq<char>)
    ensures
        slug(minusculas(s)) == slug(s),
{
    lema_palabras_minusculas(s);
}

}
