use amorfly_ai::documents::{
    analysis_note, analysis_prompt, document_kind, encode_image, export_format, ext_of,
    image_http_error, image_reply, libreoffice_args, pandoc_export_args, pandoc_export_error,
    pandoc_plain_args, pandoc_source_path, pdf_out_dir, pdftotext_args, produced_pdf_path,
    tmp_docx_path, vision_model, workbook_to_text, DocumentKind, ExportFormat, SheetText,
};

#[test]
fn readers_by_extension() {
    assert_eq!(ext_of("/d/Report.XLSX"), "xlsx");
    assert_eq!(document_kind("/d/a.xlsm"), Ok(DocumentKind::Spreadsheet));
    assert_eq!(document_kind("/d/a.PDF"), Ok(DocumentKind::Pdf));
    assert_eq!(document_kind("/d/a.odt"), Ok(DocumentKind::Word));
    assert_eq!(document_kind("/d/a.csv"), Ok(DocumentKind::PlainText));
    assert_eq!(document_kind("/d/a.png"), Err("Desteklenmeyen dosya türü: .png".to_string()));
    assert_eq!(document_kind("/d/noext"), Err("Desteklenmeyen dosya türü: .".to_string()));
}

#[test]
fn workbook_text_lists_sheets_and_rows() {
    let sheets = vec![
        SheetText { name: "S1".into(), rows: vec![vec!["a".into(), "b".into()], vec!["1".into(), "2".into()]] },
        SheetText { name: "Boş".into(), rows: vec![] },
    ];
    assert_eq!(workbook_to_text(&sheets), "## Sayfa: S1\na\tb\n1\t2\n\n## Sayfa: Boş\n\n");
}

#[test]
fn reader_commands() {
    assert_eq!(pdftotext_args("a.pdf"), vec!["-layout", "a.pdf", "-"]);
    assert_eq!(pandoc_plain_args("a.docx"), vec!["a.docx", "-t", "plain"]);
}

#[test]
fn questions_about_documents() {
    let p = analysis_prompt("İÇERİK", "Özetle");
    assert_eq!(
        p,
        "Aşağıda bir belgenin içeriği var. Kullanıcının isteğini bu belgeye dayanarak, net ve düzenli bir şekilde cevapla.\n\n--- BELGE İÇERİĞİ ---\nİÇERİK\n--- BELGE SONU ---\n\nİstek: Özetle"
    );
    assert_eq!(analysis_note("r.pdf", "özetle"), "'r.pdf' dosyasını analiz etti — istek: \"özetle\"");
}

#[test]
fn images() {
    assert_eq!(vision_model(""), "llava:7b");
    assert_eq!(vision_model("llama3.2-vision"), "llama3.2-vision");
    assert_eq!(encode_image(&b"Man".to_vec()), "TWFu");
    assert_eq!(encode_image(&vec![]), "");
    assert!(image_http_error().starts_with("Görsel analizi başarısız. Seçili model çok-modlu (vision) olmayabilir"));
    assert_eq!(image_reply(r#"{"message":{"content":"Bir kedi."}}"#), Ok("Bir kedi.".to_string()));
    assert_eq!(image_reply(r#"{"message":{}}"#), Err("Görsel analizi başarısız oldu.".to_string()));
}

#[test]
fn export_formats() {
    assert_eq!(export_format("txt"), Ok(ExportFormat::Txt));
    assert_eq!(export_format("pdf"), Ok(ExportFormat::Pdf));
    assert_eq!(export_format("odt"), Err("Desteklenmeyen dışa aktarma formatı: odt".to_string()));
}

#[test]
fn pdf_export_paths() {
    let tmp = tmp_docx_path("/out/r.pdf");
    assert_eq!(tmp, "/out/r.pdf.tmp.docx");
    assert_eq!(produced_pdf_path(&tmp), "/out/r.pdf.tmp.pdf");
    assert_eq!(produced_pdf_path("a.docx.docx"), "a.pdf");
    assert_eq!(pdf_out_dir("/out/r.pdf"), "/out");
    assert_eq!(pdf_out_dir("r.pdf"), "");
    assert_eq!(pdf_out_dir("/"), ".");
    assert_eq!(
        libreoffice_args("/out", "/out/r.pdf.tmp.docx"),
        vec!["--headless", "--convert-to", "pdf", "--outdir", "/out", "/out/r.pdf.tmp.docx"]
    );
}

#[test]
fn pandoc_export() {
    assert_eq!(pandoc_source_path("o.docx"), "o.docx.src.md");
    assert_eq!(pandoc_export_args("o.docx.src.md", "o.docx", "docx"), vec!["o.docx.src.md", "-o", "o.docx", "-t", "docx"]);
    assert_eq!(pandoc_export_error("docx"), "docx dosyası oluşturulamadı.");
}
