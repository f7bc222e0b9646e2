use amorfly_ai::excel::{
    content_to_cells, default_row_count, excel_prompt, formula_refs_fit, generated_table_note,
    local_plan_reply, max_referenced_column_index, plan_parse_error, plan_sheet,
    plan_via_chat_route, rebar_headers, rebar_total_formula, reference_export_note,
    steel_headers, steel_total_formula, strip_markdown_fences, truncate_sheet_name, ColumnSpec,
};

fn col(header: &str, kind: &str, formula: Option<&str>) -> ColumnSpec {
    ColumnSpec { header: header.to_string(), kind: kind.to_string(), formula: formula.map(|f| f.to_string()) }
}

#[test]
fn default_rows() {
    assert_eq!(default_row_count(), 15);
}

#[test]
fn fences_are_removed() {
    assert_eq!(strip_markdown_fences("```json\n{\"a\":1}\n```"), "{\"a\":1}");
    assert_eq!(strip_markdown_fences("  ```\n[1]\n```  "), "[1]");
    assert_eq!(strip_markdown_fences("{\"a\":1}"), "{\"a\":1}");
}

#[test]
fn largest_referenced_column() {
    assert_eq!(max_referenced_column_index("=B{row}*C{row}*7.85"), Some(2));
    assert_eq!(max_referenced_column_index("=SUM(A2:AA9)"), Some(26));
    assert_eq!(max_referenced_column_index("=SUM(x)"), None);
    assert!(formula_refs_fit("=B{row}"));
}

#[test]
fn sheet_names() {
    assert_eq!(truncate_sheet_name("Donatı [Hesap]: 2024/1"), "Donatı Hesap 20241");
    assert_eq!(truncate_sheet_name("[]:*?/\\"), "Tablo");
    assert_eq!(truncate_sheet_name(&"x".repeat(40)).chars().count(), 31);
}

#[test]
fn plan_writes_headers_and_formulas_that_fit() {
    let cols = vec![
        col("Adet", "input", None),
        col("Boy", "input", None),
        col("Toplam", "formula", Some("=A{row}*B{row}")),
        col("Bozuk", "formula", Some("=E{row}")),
    ];
    let p = plan_sheet(&cols, 2).unwrap();
    assert_eq!(p.headers, vec!["Adet", "Boy", "Toplam", "Bozuk"]);
    let cells: Vec<(u32, usize, &str)> = p.formulas.iter().map(|c| (c.row, c.col, c.text.as_str())).collect();
    assert_eq!(cells, vec![(1, 2, "=A2*B2"), (2, 2, "=A3*B3")]);
}

#[test]
fn plan_rows_are_clamped() {
    let cols = vec![col("F", "formula", Some("=A{row}"))];
    assert_eq!(plan_sheet(&cols, 0).unwrap().formulas.len(), 1);
    assert_eq!(plan_sheet(&cols, 900).unwrap().formulas.len(), 500);
}

#[test]
fn plan_without_columns_is_refused() {
    assert_eq!(plan_sheet(&vec![], 5).err().unwrap(), "Model hiç sütun üretmedi.");
}

#[test]
fn markdown_table_becomes_cells() {
    let content = "Başlık\n| a | b |\n|---|---|\n| 1 | 2 |\n";
    let cells: Vec<(usize, usize, String)> = content_to_cells(content).into_iter().map(|c| (c.row, c.col, c.text)).collect();
    assert_eq!(
        cells,
        vec![(0, 0, "a".into()), (0, 1, "b".into()), (2, 0, "1".into()), (2, 1, "2".into())]
    );
}

#[test]
fn plain_text_becomes_one_column() {
    let cells: Vec<(usize, usize, String)> = content_to_cells("x\ny").into_iter().map(|c| (c.row, c.col, c.text)).collect();
    assert_eq!(cells, vec![(0, 0, "x".into()), (1, 0, "y".into())]);
}

#[test]
fn reference_table_formulas() {
    assert_eq!(steel_total_formula(2), "=G2*H2");
    assert_eq!(rebar_total_formula(10), "=D10*E10*C10");
    assert_eq!(steel_headers().len(), 7);
    assert_eq!(rebar_headers()[1], "Kesit Alanı (mm²)");
    assert_eq!(reference_export_note(true, "a.xlsx"), "Çelik profil referans tablosunu Excel'e aktardı: a.xlsx");
    assert_eq!(reference_export_note(false, "b.xlsx"), "Donatı ağırlık hesap tablosunu Excel'e aktardı: b.xlsx");
}

#[test]
fn asking_for_a_plan() {
    let p = excel_prompt("donatı hesabı");
    assert!(p.starts_with("Bir mühendislik/ofis Excel tablosu tasarlayacaksın. Kullanıcının isteği: \"donatı hesabı\"\n\nSADECE"));
    assert!(p.contains("\"formula\": \"=B{row}*C{row}\""));
    assert!(p.ends_with("doğru, standart formülü kullan."));
    assert!(plan_via_chat_route("hibrit") && plan_via_chat_route("online"));
    assert!(!plan_via_chat_route("lokal"));
    assert_eq!(local_plan_reply(r#"{"message":{"content":"{}"}}"#), Ok("{}".to_string()));
    assert_eq!(local_plan_reply(r#"{"message":{}}"#), Err("Model boş yanıt döndürdü.".to_string()));
    assert_eq!(
        plan_parse_error("eof"),
        "Model geçerli bir tablo planı üretemedi (eof). Farklı bir model deneyin ya da isteği daha net yazın."
    );
    assert_eq!(generated_table_note("d", "o.xlsx"), "AI ile Excel tablosu üretti: \"d\" -> o.xlsx");
}

#[test]
fn an_input_column_may_carry_any_formula() {
    let long = "ABCDEFGHIJKLMNOP{row}";
    assert!(!formula_refs_fit(long));
    let cols = vec![col("Ad", "input", Some(long)), col("Toplam", "formula", Some("=A{row}"))];
    let p = plan_sheet(&cols, 2).unwrap();
    assert_eq!(p.headers, vec!["Ad".to_string(), "Toplam".to_string()]);
    assert_eq!(p.formulas.len(), 2);
    assert_eq!(p.formulas[0].text, "=A2");
    assert_eq!(p.formulas[1].text, "=A3");
}
