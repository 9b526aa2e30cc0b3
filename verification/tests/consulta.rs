use diario::consulta::{query_a, query_de, EntryQuery};

#[test]
fn la_query_omite_los_filtros_vacios() {
    let q = EntryQuery {
        application: Some("redes-ice-netcore".into()),
        ..Default::default()
    };
    assert_eq!(query_de(&q), "application=redes-ice-netcore");
    assert_eq!(query_de(&EntryQuery::default()), "");
}

#[test]
fn la_query_va_y_vuelve_sin_perder_nada() {
    let q = EntryQuery {
        application: Some("diario-ia".into()),
        tag: Some("build".into()),
        from: Some("2026-09-01".into()),
        to: Some("2026-09-18".into()),
        q: Some("exportacion & marcado".into()),
        exported: Some(false),
        ..Default::default()
    };

    assert_eq!(query_a(&format!("?{}", query_de(&q))), q);
}

#[test]
fn una_query_con_basura_no_rompe_la_pagina() {
    let q = query_a("?tag=build&loquesea=1");
    assert_eq!(q.tag.as_deref(), Some("build"));
}

#[test]
fn la_query_lleva_numeros_y_booleanos() {
    let q = EntryQuery {
        limit: Some(-12),
        cursor: Some(i64::MAX),
        exported: Some(true),
        q: Some("ñandú = 100% ?".into()),
        ..Default::default()
    };
    let s = query_de(&q);
    assert!(!s.starts_with('?'));
    assert_eq!(query_a(&s), q);
    assert_eq!(query_a(&format!("??{s}")), q);
}

#[test]
fn una_query_invalida_no_filtra_nada() {
    assert_eq!(query_a("?limit=abc&tag=x"), EntryQuery::default());
    assert_eq!(query_a("tag=a&tag=b"), EntryQuery::default());
    assert_eq!(query_a("exported=si"), EntryQuery::default());
    assert_eq!(query_a(""), EntryQuery::default());
    assert_eq!(query_a("limit=+7"), EntryQuery::default());
    let q = query_a("limit=%2B7&cursor=-3&exported=false&q=a+b");
    assert_eq!(q.limit, Some(7));
    assert_eq!(q.cursor, Some(-3));
    assert_eq!(q.exported, Some(false));
    assert_eq!(q.q.as_deref(), Some("a b"));
}
