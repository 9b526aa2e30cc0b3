use chrono::TimeZone;
use diario::modelo::{Entry, EntrySummary};
use diario::consulta::EntryQuery;
use diario::exportacion::{cursor_tras_lote, cursor_tras_pagina};
use diario::pantalla::{
    accion_de_marcado, aviso_de_copia, copia_del_hilo, entrada_de_historial, error_del_hilo,
    estado_exportacion, mensaje_exportacion, meta_bloque, meta_detalle, meta_tarjeta,
    resultado_de_exportacion, resumen_visible, texto_exportando, vista_tras_filtrar, CopiaDelHilo,
};
use diario::render::{sanitize, snippet};
use diario::vista::{markdown_del_hilo, Filtros};
use diario::ruta::View;
use diario::tiempo::{fecha_hora, hora_minuto, Instante};

fn instante(y: i32, mo: u32, d: u32, h: u32, mi: u32, s: u32) -> Instante {
    let t = chrono::Utc.with_ymd_and_hms(y, mo, d, h, mi, s).unwrap();
    Instante::nuevo(t.timestamp(), t.timestamp_subsec_nanos()).unwrap()
}

fn resumen_de_prueba() -> EntrySummary {
    EntrySummary {
        id: 7,
        application_slug: "mi-app".into(),
        application_name: "Mi App".into(),
        agent_name: "agente-ia".into(),
        model: Some("modelo-5".into()),
        title: "Titulo".into(),
        snippet: "texto".into(),
        tags: vec![],
        created_at: instante(2026, 9, 17, 8, 5, 0),
    }
}

fn entrada_de_prueba() -> Entry {
    Entry {
        id: 7,
        application_slug: "mi-app".into(),
        application_name: "Mi App".into(),
        agent_name: "agente-ia".into(),
        model: None,
        title: "Titulo".into(),
        prompt: "p".into(),
        task_summary: Some(String::new()),
        response_markdown: "r".into(),
        response_html: "<p>r</p>".into(),
        status: None,
        tags: vec![],
        tokens_input: None,
        tokens_output: None,
        duration_ms: None,
        metadata: None,
        created_at: instante(2026, 9, 17, 23, 59, 30),
        exported_at: None,
        export_filename: String::new(),
        attachments: vec![],
    }
}

#[test]
fn horas_en_utc() {
    let i = instante(2026, 9, 17, 8, 5, 0);
    assert_eq!(hora_minuto(&i), "08:05");
    assert_eq!(fecha_hora(&i), "17/09/2026 08:05");
}

#[test]
fn la_tarjeta_lleva_agente_modelo_y_hora() {
    let mut e = resumen_de_prueba();
    assert_eq!(meta_tarjeta(&e), "agente-ia · modelo-5 · 08:05");
    e.model = None;
    assert_eq!(meta_tarjeta(&e), "agente-ia · 08:05");
}

#[test]
fn el_detalle_y_el_hilo_llevan_su_linea() {
    let mut e = entrada_de_prueba();
    assert_eq!(meta_detalle(&e), "agente-ia · —");
    assert_eq!(meta_bloque(&e), "agente-ia · — · 17/09/2026 23:59");
    e.model = Some("modelo-5".into());
    assert_eq!(meta_detalle(&e), "agente-ia · modelo-5");
}

#[test]
fn un_resumen_vacio_no_se_muestra() {
    assert_eq!(resumen_visible(&Some(String::new())), None);
    assert_eq!(resumen_visible(&None), None);
    assert_eq!(resumen_visible(&Some("hecho".into())), Some("hecho".to_string()));
}

#[test]
fn mensajes_de_la_exportacion_forzada() {
    assert_eq!(mensaje_exportacion(3, 2), "3 escrita(s), 2 sin destino");
    assert_eq!(mensaje_exportacion(0, 1), "0 escrita(s), 1 sin destino");
    assert_eq!(mensaje_exportacion(4, 0), "4 escrita(s)");
    assert_eq!(mensaje_exportacion(0, 0), "No quedaba nada");
}

#[test]
fn filtrar_desde_el_detalle_vuelve_al_listado() {
    assert_eq!(vista_tras_filtrar(true, View::Detail(3)), View::List);
    assert_eq!(vista_tras_filtrar(false, View::Detail(3)), View::Detail(3));
    assert_eq!(vista_tras_filtrar(true, View::Hilo), View::Hilo);
    assert_eq!(vista_tras_filtrar(true, View::List), View::List);
}

#[test]
fn el_historial_no_apila_la_misma_direccion() {
    assert_eq!(
        entrada_de_historial(View::Detail(5), "tag=x", "/", ""),
        Some("/entry/5?tag=x".to_string())
    );
    assert_eq!(entrada_de_historial(View::Detail(5), "tag=x", "/entry/5", "?tag=x"), None);
    assert_eq!(entrada_de_historial(View::List, "", "/", ""), None);
    assert_eq!(entrada_de_historial(View::Hilo, "", "/", ""), Some("/hilo".to_string()));
}

#[test]
fn marcar_invierte_el_estado() {
    let (nuevo, etiqueta, _) = accion_de_marcado(true);
    assert!(!nuevo);
    assert_eq!(etiqueta, "Marcar sin exportar");
    let (nuevo, etiqueta, titulo) = accion_de_marcado(false);
    assert!(nuevo);
    assert_eq!(etiqueta, "Marcar exportada");
    assert!(titulo.contains("sin escribir el fichero"));
}

#[test]
fn avisos_del_hilo() {
    assert_eq!(aviso_de_copia(true), "Copiado");
    assert_eq!(aviso_de_copia(false), "El navegador no dejo copiar");
    assert_eq!(error_del_hilo(Some("demasiadas".into())), "demasiadas");
    assert_eq!(error_del_hilo(None), "no se pudo cargar el hilo");
}

#[test]
fn la_exportacion_forzada_avisa_mientras_corre_y_al_fallar() {
    assert_eq!(texto_exportando(), "Exportando…");
    assert_eq!(resultado_de_exportacion(Ok((1, 0))), "1 escrita(s)");
    assert_eq!(resultado_de_exportacion(Ok((2, 3))), "2 escrita(s), 3 sin destino");
    assert_eq!(resultado_de_exportacion(Err("sin red".into())), "Error: sin red");
}

#[test]
fn sin_portapapeles_el_hilo_se_descarga() {
    let q = EntryQuery { application: Some("mi-app".into()), ..EntryQuery::default() };
    let entradas = vec![entrada_de_prueba()];
    let md = markdown_del_hilo(&q, &entradas);
    match copia_del_hilo(true, &q, &entradas) {
        CopiaDelHilo::AlPortapapeles(t) => assert_eq!(t, md),
        _ => panic!("con portapapeles se copia"),
    }
    match copia_del_hilo(false, &q, &entradas) {
        CopiaDelHilo::Descarga { nombre, contenido, aviso } => {
            assert_eq!(contenido, md);
            assert_eq!(aviso, "Sin portapapeles: descargado como fichero");
            assert!(nombre.starts_with("hilo-mi-app-"));
            assert!(nombre.ends_with(".md"));
        }
        _ => panic!("sin portapapeles se descarga"),
    }
}

#[test]
fn el_detalle_dice_si_esta_exportada() {
    assert_eq!(estado_exportacion(&None), "Sin exportar");
    let t = chrono::Utc.with_ymd_and_hms(2026, 9, 17, 12, 58, 51).unwrap();
    let i = Instante::nuevo(t.timestamp(), 0).unwrap();
    assert_eq!(
        estado_exportacion(&Some(i)),
        format!("Exportada el {}", t.with_timezone(&chrono::Local).format("%d/%m/%Y %H:%M"))
    );
}

#[test]
fn limpiar_filtros_deja_la_busqueda() {
    let f = Filtros {
        aplicacion: Some("a".into()),
        desde: "2026-01-01".into(),
        hasta: "2026-02-01".into(),
        busqueda: "texto".into(),
        etiqueta: Some("t".into()),
        solo_pendientes: true,
    };
    let l = f.limpiar();
    assert_eq!(l.aplicacion, None);
    assert_eq!(l.desde, "");
    assert_eq!(l.hasta, "");
    assert_eq!(l.busqueda, "texto");
    assert_eq!(l.etiqueta, None);
    assert!(!l.solo_pendientes);
}

#[test]
fn el_exportador_sigue_tras_el_ultimo_del_lote() {
    assert_eq!(cursor_tras_lote(&vec![]), None);
    assert_eq!(cursor_tras_lote(&vec![3, 5, 9]), Some(9));
}

#[test]
fn el_html_se_sanea_sin_perder_las_clases() {
    let limpio = sanitize("<p onclick=\"x()\">hola</p><script>alert(1)</script><code class=\"language-mermaid\">a</code>");
    assert!(!limpio.contains("script"));
    assert!(!limpio.contains("onclick"));
    assert!(limpio.contains("class=\"language-mermaid\""));
    assert!(limpio.contains("hola"));
}

#[test]
fn el_fragmento_sale_del_texto_entero() {
    let md = "# Titulo\n\n- uno   dos\n> tres";
    let entero = snippet(md, usize::MAX);
    assert_eq!(entero, "Titulo uno dos tres");
    assert_eq!(snippet(md, 100), entero);
    assert_eq!(snippet(md, 7), "Titulo…");
    assert_eq!(snippet(md, 10), "Titulo uno…");
    assert!(entero.chars().count() <= md.chars().count());
}

#[test]
fn la_exportacion_manual_sigue_mientras_haya_paginas() {
    assert_eq!(cursor_tras_pagina(0, Some(4)), None);
    assert_eq!(cursor_tras_pagina(3, None), None);
    assert_eq!(cursor_tras_pagina(3, Some(4)), Some(4));
}
