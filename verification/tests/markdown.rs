use chrono::TimeZone;
use diario::markdown::{markdown_de, markdown_exportacion, nombre_con_hora, nombre_exportacion, nombre_fichero};
use diario::modelo::{Entry, EntrySummary};
use diario::ruta::View;
use diario::tiempo::{dia_de, hora_utc_compacta, parse_dt, Instante};
use diario::vista::{
    cuantas, descripcion_filtros, destino_de, group_by_day, markdown_del_hilo, nombre_del_hilo,
    nombre_hilo_con_hora, parse_route, ruta_de, url_de_entradas, Filtros,
};
use diario::consulta::{query_a, EntryQuery};

fn instante(y: i32, mo: u32, d: u32, h: u32, mi: u32, s: u32) -> Instante {
    let t = chrono::Utc.with_ymd_and_hms(y, mo, d, h, mi, s).unwrap();
    Instante::nuevo(t.timestamp(), t.timestamp_subsec_nanos()).unwrap()
}

fn entrada_de_prueba() -> Entry {
    Entry {
        id: 19,
        application_slug: "redes-ice-netcore".into(),
        application_name: "redes-ice-netcore".into(),
        agent_name: "agente-ia".into(),
        model: Some("modelo-5".into()),
        title: "Sacar bin/ y obj/ del control de versiones".into(),
        prompt: "el prompt literal".into(),
        task_summary: Some("el resumen".into()),
        response_markdown: "# Respuesta\n\ncuerpo".into(),
        response_html: "<h1>Respuesta</h1>".into(),
        status: None,
        tags: vec!["git".into(), "limpieza".into()],
        tokens_input: None,
        tokens_output: None,
        duration_ms: None,
        metadata: None,
        created_at: instante(2026, 9, 17, 12, 58, 51),
        exported_at: None,
        export_filename: String::new(),
        attachments: vec![],
    }
}

#[test]
fn el_nombre_lleva_fecha_hora_aplicacion_e_id() {
    assert_eq!(
        nombre_fichero(&entrada_de_prueba()),
        format!(
            "{}-redes-ice-netcore-19.md",
            chrono::Utc
                .with_ymd_and_hms(2026, 9, 17, 12, 58, 51)
                .unwrap()
                .with_timezone(&chrono::Local)
                .format("%Y%m%d-%H%M%S")
        )
    );
}

#[test]
fn dos_entradas_del_mismo_segundo_no_colisionan() {
    let a = entrada_de_prueba();
    let mut b = entrada_de_prueba();
    b.id = 20;
    assert_ne!(nombre_fichero(&a), nombre_fichero(&b));
}

#[test]
fn el_nombre_con_hora_es_exacto() {
    assert_eq!(
        nombre_con_hora("20260917-125851", "redes-ice-netcore", 19),
        "20260917-125851-redes-ice-netcore-19.md"
    );
    assert_eq!(nombre_con_hora("h", "s", -5), "h-s--5.md");
}

#[test]
fn el_markdown_lleva_el_titulo_como_h1_y_el_prompt_literal() {
    let md = markdown_de(&entrada_de_prueba());
    assert!(md.starts_with("# Sacar bin/ y obj/ del control de versiones\n"));
    assert!(md.contains("el prompt literal"));
    assert!(md.contains("cuerpo"));
    assert!(md.contains("git, limpieza"));
}

#[test]
fn el_markdown_entero() {
    let md = markdown_de(&entrada_de_prueba());
    assert_eq!(
        md,
        "# Sacar bin/ y obj/ del control de versiones\n\n\
         - Aplicacion: redes-ice-netcore\n\
         - Agente: agente-ia (modelo-5)\n\
         - Fecha: 2026-09-17T12:58:51+00:00\n\
         - Entrada: 19\n\
         - Etiquetas: git, limpieza\n\n\
         ## Prompt\n\nel prompt literal\n\n\
         ## Resumen\n\nel resumen\n\n\
         ## Respuesta\n\n# Respuesta\n\ncuerpo\n"
    );
    let mut e = entrada_de_prueba();
    e.model = None;
    e.tags = vec![];
    e.task_summary = None;
    let md = markdown_de(&e);
    assert!(md.contains("- Agente: agente-ia (-)\n"));
    assert!(!md.contains("Etiquetas"));
    assert!(!md.contains("## Resumen"));
}

#[test]
fn rfc3339_y_parse_dt() {
    let i = instante(2026, 9, 17, 12, 58, 51);
    assert_eq!(i.rfc3339(), "2026-09-17T12:58:51+00:00");
    assert_eq!(parse_dt("2026-09-17T14:58:51+02:00"), Some(i));
    assert_eq!(parse_dt("ayer"), None);
    // SQLite's datetime('now') text, taken as UTC.
    assert_eq!(parse_dt("2026-09-17 12:58:51"), Some(i));
    assert_eq!(parse_dt("2024-02-29 00:00:00"), Some(instante(2024, 2, 29, 0, 0, 0)));
    assert_eq!(parse_dt("0000-03-01 00:00:00"), Some(instante(0, 3, 1, 0, 0, 0)));
    assert_eq!(parse_dt("1970-01-01 00:00:00"), Some(instante(1970, 1, 1, 0, 0, 0)));
    assert_eq!(parse_dt("2023-02-29 00:00:00"), None);
    assert_eq!(parse_dt("2026-13-01 00:00:00"), None);
    assert_eq!(parse_dt("2026-09-17 24:00:00"), None);
    assert_eq!(parse_dt("2026-09-17T12:58:51"), None);
    assert!(Instante::nuevo(i64::MAX, 0).is_none());
}

#[test]
fn rutas_de_las_vistas() {
    assert_eq!(parse_route("/entry/42"), View::Detail(42));
    assert_eq!(parse_route("/entry/42/"), View::Detail(42));
    assert_eq!(parse_route("/entry/x"), View::List);
    assert_eq!(parse_route("/hilo/"), View::Hilo);
    assert_eq!(parse_route("/otra"), View::List);
    for v in [View::List, View::Hilo, View::Detail(7), View::Detail(-3)] {
        assert_eq!(parse_route(&ruta_de(v)), v);
    }
    assert_eq!(destino_de(View::Hilo, ""), "/hilo");
    assert_eq!(destino_de(View::Detail(5), "tag=a"), "/entry/5?tag=a");
}

#[test]
fn descripcion_y_recuento() {
    assert_eq!(descripcion_filtros(&EntryQuery::default()), "todo el diario");
    let q = EntryQuery {
        application: Some("diario-ia".into()),
        tag: Some("build".into()),
        from: Some("2026-09-01".into()),
        q: Some("x".into()),
        exported: Some(false),
        ..Default::default()
    };
    assert_eq!(
        descripcion_filtros(&q),
        "diario-ia · #build · desde 2026-09-01 · \"x\" · sin exportar"
    );
    assert_eq!(cuantas(1), "1 entrada");
    assert_eq!(cuantas(0), "0 entradas");
    assert_eq!(cuantas(12), "12 entradas");
}

#[test]
fn el_hilo_junta_las_entradas() {
    let e = entrada_de_prueba();
    let md = markdown_del_hilo(&EntryQuery::default(), &vec![e.clone(), e.clone()]);
    let uno = markdown_de(&e);
    assert_eq!(
        md,
        format!("# Diario-IA — todo el diario (2 entradas)\n\n{uno}\n---\n\n{uno}")
    );
    let q = EntryQuery { tag: Some("build".into()), ..Default::default() };
    assert_eq!(nombre_hilo_con_hora(&q, "20260101-000000"), "hilo-build-20260101-000000.md");
    assert!(nombre_del_hilo(&EntryQuery::default()).starts_with("hilo-diario-"));
}

#[test]
fn agrupa_por_dia_en_orden() {
    let mk = |id: i64, d: u32, h: u32| EntrySummary {
        id,
        application_slug: "a".into(),
        application_name: "A".into(),
        agent_name: "x".into(),
        model: None,
        title: String::new(),
        snippet: String::new(),
        tags: vec![],
        created_at: instante(2026, 9, d, h, 0, 0),
    };
    let g = group_by_day(vec![mk(4, 18, 10), mk(3, 18, 9), mk(2, 17, 23), mk(1, 18, 1)]);
    let resumen: Vec<(String, Vec<i64>)> =
        g.into_iter().map(|(d, l)| (d, l.into_iter().map(|e| e.id).collect())).collect();
    assert_eq!(
        resumen,
        vec![
            ("18/09/2026".to_string(), vec![4, 3]),
            ("17/09/2026".to_string(), vec![2]),
            ("18/09/2026".to_string(), vec![1]),
        ]
    );
    assert!(group_by_day(vec![]).is_empty());
}

#[test]
fn los_filtros_de_la_pagina_vuelven_de_la_url() {
    let f = Filtros {
        aplicacion: Some("diario-ia".into()),
        desde: String::new(),
        hasta: "2026-09-18".into(),
        busqueda: "a b".into(),
        etiqueta: Some(String::new()),
        solo_pendientes: true,
    };
    let q = f.consulta();
    assert_eq!(q.tag, None);
    assert_eq!(q.from, None);
    assert_eq!(q.exported, Some(false));
    let de_vuelta = Filtros::desde_consulta(&query_a(&diario::consulta::query_de(&q))).consulta();
    assert_eq!(de_vuelta, q);
    assert!(url_de_entradas(&q).starts_with("/api/v1/entries?application=diario-ia&to=2026-09-18&q=a+b&limit=200"));
}

#[test]
fn la_exportacion_manual_tiene_su_formato() {
    let e = entrada_de_prueba();
    assert_eq!(
        markdown_exportacion(&e),
        "# Sacar bin/ y obj/ del control de versiones\n\n\
         - Aplicacion: redes-ice-netcore\n\
         - Agente: agente-ia (modelo-5)\n\
         - Fecha: 2026-09-17T12:58:51+00:00\n\n\
         ## Prompt\n\nel prompt literal\n\n\
         ## Tarea\n\nel resumen\n\n\
         ## Respuesta\n\n# Respuesta\n\ncuerpo\n\n"
    );
    let mut sin = entrada_de_prueba();
    sin.model = None;
    sin.task_summary = None;
    let md = markdown_exportacion(&sin);
    assert!(md.contains("- Agente: agente-ia (-)\n"));
    assert!(!md.contains("## Tarea"));
}

#[test]
fn el_nombre_de_exportacion_va_en_utc() {
    assert_eq!(nombre_exportacion(&entrada_de_prueba()), "20260917-125851-19.md");
}

#[test]
fn fechas_en_utc() {
    let i = instante(2026, 9, 17, 12, 58, 51);
    assert_eq!(hora_utc_compacta(&i), "20260917-125851");
    assert_eq!(dia_de(&i), "17/09/2026");
}
