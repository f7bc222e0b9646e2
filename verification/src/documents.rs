//! Documents: which reader a file needs by its extension, the text made of
//! a workbook's sheets, the request that asks a question about a document
//! or an image, and the steps of exporting text as txt, docx, pdf or xlsx.
use crate::json::{message_content, spec_json_valid, spec_message_content};
use crate::security::{base64_encode, spec_base64_encode};
use crate::subtitles::{path_parent, spec_parent};
use crate::tasks::{ext_lower, ext_lower_spec};
use crate::text::{append_str, join, join_strings, str_eq, str_views};
use vstd::prelude::*;

verus! {

/// How a document is read.
#[derive(PartialEq, Eq, Structural, Debug, Clone, Copy)]
pub enum DocumentKind {
    /// `xlsx`, `xls`, `xlsm`: read with calamine.
    Spreadsheet,
    /// `pdf`: read with `pdftotext`.
    Pdf,
    /// `docx`, `doc`, `odt`: read with `pandoc`.
    Word,
    /// `txt`, `md`, `csv`: read as it is.
    PlainText,
}

/// The formats a text can be exported to.
#[derive(PartialEq, Eq, Structural, Debug, Clone, Copy)]
pub enum ExportFormat {
    Txt,
    Xlsx,
    Docx,
    Pdf,
}

/// A worksheet's name and its cells, row by row, as text.
pub struct SheetText {
    pub name: String,
    pub rows: Vec<Vec<String>>,
}

// ---------------------------------------------------------------------
// Specifications
// ---------------------------------------------------------------------

/// The reader for a (lower-case) extension.
pub open spec fn kind_of(ext: Seq<char>) -> Option<DocumentKind> {
    if ext == "xlsx"@ || ext == "xls"@ || ext == "xlsm"@ {
        Some(DocumentKind::Spreadsheet)
    } else if ext == "pdf"@ {
        Some(DocumentKind::Pdf)
    } else if ext == "docx"@ || ext == "doc"@ || ext == "odt"@ {
        Some(DocumentKind::Word)
    } else if ext == "txt"@ || ext == "md"@ || ext == "csv"@ {
        Some(DocumentKind::PlainText)
    } else {
        None
    }
}

/// The export format named by `f`.
pub open spec fn format_of(f: Seq<char>) -> Option<ExportFormat> {
    if f == "txt"@ {
        Some(ExportFormat::Txt)
    } else if f == "xlsx"@ {
        Some(ExportFormat::Xlsx)
    } else if f == "docx"@ {
        Some(ExportFormat::Docx)
    } else if f == "pdf"@ {
        Some(ExportFormat::Pdf)
    } else {
        None
    }
}

/// A row of cells: the cells joined with tabs, then a line feed.
pub open spec fn row_text(cells: Seq<Seq<char>>) -> Seq<char> {
    join(cells, "\t"@) + "\n"@
}

/// The rows one after the other.
pub open spec fn rows_text(rows: Seq<Seq<Seq<char>>>) -> Seq<char>
    decreases rows.len(),
{
    if rows.len() == 0 {
        Seq::empty()
    } else {
        rows_text(rows.drop_last()) + row_text(rows.last())
    }
}

/// A sheet: a heading with its name, its rows, and an empty line.
pub open spec fn sheet_text(name: Seq<char>, rows: Seq<Seq<Seq<char>>>) -> Seq<char> {
    "## Sayfa: "@ + name + "\n"@ + rows_text(rows) + "\n"@
}

/// A sheet as plain values.
pub open spec fn sheet_view(s: SheetText) -> (Seq<char>, Seq<Seq<Seq<char>>>) {
    (s.name@, s.rows@.map_values(|r: Vec<String>| str_views(r@)))
}

/// The sheets one after the other.
pub open spec fn workbook_text(sheets: Seq<(Seq<char>, Seq<Seq<Seq<char>>>)>) -> Seq<char>
    decreases sheets.len(),
{
    if sheets.len() == 0 {
        Seq::empty()
    } else {
        workbook_text(sheets.drop_last()) + sheet_text(sheets.last().0, sheets.last().1)
    }
}

pub open spec fn analysis_head() -> &'static str {
    "Aşağıda bir belgenin içeriği var. Kullanıcının isteğini bu belgeye dayanarak, net ve düzenli bir şekilde cevapla.\n\n--- BELGE İÇERİĞİ ---\n"
}

pub open spec fn image_http_error_text() -> &'static str {
    "Görsel analizi başarısız. Seçili model çok-modlu (vision) olmayabilir — Modeller sekmesinden 'llava' gibi görsel destekli bir model indirin."
}

/// `s` with every trailing occurrence of `p` removed (`trim_end_matches`).
pub open spec fn trim_end_str(s: Seq<char>, p: Seq<char>) -> Seq<char>
    decreases s.len(),
{
    if p.len() > 0 && p.len() <= s.len() && s.skip(s.len() - p.len()) == p {
        trim_end_str(s.take(s.len() - p.len()), p)
    } else {
        s
    }
}

/// The intermediate Word file of a PDF export.
pub open spec fn tmp_docx_of(output: Seq<char>) -> Seq<char> {
    output + ".tmp.docx"@
}

/// The file LibreOffice writes when converting the intermediate Word file:
/// its name with the `.docx` ending replaced by `.pdf`.
pub open spec fn produced_pdf_of(output: Seq<char>) -> Seq<char> {
    trim_end_str(tmp_docx_of(output), ".docx"@) + ".pdf"@
}

// ---------------------------------------------------------------------
// Reading
// ---------------------------------------------------------------------

/// The extension of `path` in lower case, empty when it has none.
pub fn ext_of(path: &str) -> (r: String)
    ensures
        r@ == ext_lower_spec(path@),
{
    ext_lower(path)
}

/// The reader for a document: by its extension, or a refusal naming the
/// extension.
pub fn document_kind(path: &str) -> (r: Result<DocumentKind, String>)
    ensures
        match kind_of(ext_lower_spec(path@)) {
            Some(k) => r == Ok::<DocumentKind, String>(k),
            None => r is Err && r->Err_0@ == "Desteklenmeyen dosya türü: ."@ + ext_lower_spec(path@),
        },
{
    let ext = ext_of(path);
    let e = ext.as_str();
    if str_eq(e, "xlsx") || str_eq(e, "xls") || str_eq(e, "xlsm") {
        Ok(DocumentKind::Spreadsheet)
    } else if str_eq(e, "pdf") {
        Ok(DocumentKind::Pdf)
    } else if str_eq(e, "docx") || str_eq(e, "doc") || str_eq(e, "odt") {
        Ok(DocumentKind::Word)
    } else if str_eq(e, "txt") || str_eq(e, "md") || str_eq(e, "csv") {
        Ok(DocumentKind::PlainText)
    } else {
        let mut m = "Desteklenmeyen dosya türü: .".to_owned();
        append_str(&mut m, e);
        Err(m)
    }
}

/// The text of a workbook: each sheet under a `## Sayfa:` heading, each
/// row with its cells separated by tabs.
pub fn workbook_to_text(sheets: &Vec<SheetText>) -> (r: String)
    ensures
        r@ == workbook_text(sheets@.map_values(|s: SheetText| sheet_view(s))),
{
    let ghost sv = sheets@.map_values(|s: SheetText| sheet_view(s));
    let mut out = String::new();
    let mut i: usize = 0;
    while i < sheets.len()
        invariant
            i <= sheets@.len(),
            sv == sheets@.map_values(|s: SheetText| sheet_view(s)),
            out@ == workbook_text(sv.take(i as int)),
        decreases sheets.len() - i,
    {
        let s = &sheets[i];
        let ghost before = out@;
        let ghost rv = s.rows@.map_values(|r: Vec<String>| str_views(r@));
        append_str(&mut out, "## Sayfa: ");
        append_str(&mut out, s.name.as_str());
        append_str(&mut out, "\n");
        let ghost mid = out@;
        let mut j: usize = 0;
        while j < s.rows.len()
            invariant
                j <= s.rows@.len(),
                rv == s.rows@.map_values(|r: Vec<String>| str_views(r@)),
                out@ == mid + rows_text(rv.take(j as int)),
            decreases s.rows.len() - j,
        {
            let line = join_strings(&s.rows[j], "\t");
            append_str(&mut out, line.as_str());
            append_str(&mut out, "\n");
            proof {
                assert(rv.take(j + 1).drop_last() =~= rv.take(j as int));
                assert(rv.take(j + 1).last() == str_views(s.rows@[j as int]@));
                assert(out@ =~= mid + rows_text(rv.take(j + 1)));
            }
            j = j + 1;
        }
        append_str(&mut out, "\n");
        proof {
            assert(rv.take(s.rows.len() as int) =~= rv);
            assert(sv.take(i + 1).drop_last() =~= sv.take(i as int));
            assert(sv.take(i + 1).last() == sheet_view(sheets@[i as int]));
            assert(out@ =~= before + sheet_text(s.name@, rv));
        }
        i = i + 1;
    }
    proof {
        assert(sv.take(sheets.len() as int) =~= sv);
    }
    out
}

/// The arguments of `pdftotext` that print a PDF's text, keeping its
/// layout.
pub fn pdftotext_args(path: &str) -> (r: Vec<String>)
    ensures
        str_views(r@) == seq!["-layout"@, path@, "-"@],
{
    let r = vec!["-layout".to_owned(), path.to_owned(), "-".to_owned()];
    assert(str_views(r@) =~= seq!["-layout"@, path@, "-"@]);
    r
}

/// The arguments of `pandoc` that print a Word document as plain text.
pub fn pandoc_plain_args(path: &str) -> (r: Vec<String>)
    ensures
        str_views(r@) == seq![path@, "-t"@, "plain"@],
{
    let r = vec![path.to_owned(), "-t".to_owned(), "plain".to_owned()];
    assert(str_views(r@) =~= seq![path@, "-t"@, "plain"@]);
    r
}

// ---------------------------------------------------------------------
// Questions about documents and images
// ---------------------------------------------------------------------

fn analysis_head_text() -> (s: &'static str)
    ensures
        s@ == analysis_head()@,
{
    "Aşağıda bir belgenin içeriği var. Kullanıcının isteğini bu belgeye dayanarak, net ve düzenli bir şekilde cevapla.\n\n--- BELGE İÇERİĞİ ---\n"
}

/// The request that asks `question` about a document's `content`.
pub fn analysis_prompt(content: &str, question: &str) -> (r: String)
    ensures
        r@ == analysis_head()@ + content@ + "\n--- BELGE SONU ---\n\nİstek: "@ + question@,
{
    let mut r = analysis_head_text().to_owned();
    append_str(&mut r, content);
    append_str(&mut r, "\n--- BELGE SONU ---\n\nİstek: ");
    append_str(&mut r, question);
    r
}

/// The memory note of a document analysis.
pub fn analysis_note(path: &str, question: &str) -> (r: String)
    ensures
        r@ == "'"@ + path@ + "' dosyasını analiz etti — istek: \""@ + question@ + "\""@,
{
    let mut r = "'".to_owned();
    append_str(&mut r, path);
    append_str(&mut r, "' dosyasını analiz etti — istek: \"");
    append_str(&mut r, question);
    append_str(&mut r, "\"");
    r
}

/// The vision model asked: the given one, or `llava:7b`.
pub fn vision_model(model: &str) -> (r: String)
    ensures
        r@ == (if model@.len() == 0 {
            "llava:7b"@
        } else {
            model@
        }),
{
    if model.is_empty() {
        "llava:7b".to_owned()
    } else {
        model.to_owned()
    }
}

/// The image as base64 text for the request.
pub fn encode_image(bytes: &Vec<u8>) -> (r: String)
    requires
        bytes@.len() / 3 * 4 + 4 <= usize::MAX,
    ensures
        r@ == spec_base64_encode(bytes@),
{
    base64_encode(bytes.as_slice())
}

fn image_http_error_str() -> (s: &'static str)
    ensures
        s@ == image_http_error_text()@,
{
    "Görsel analizi başarısız. Seçili model çok-modlu (vision) olmayabilir — Modeller sekmesinden 'llava' gibi görsel destekli bir model indirin."
}

/// The error when the engine refuses an image request.
pub fn image_http_error() -> (r: String)
    ensures
        r@ == image_http_error_text()@,
{
    image_http_error_str().to_owned()
}

/// The answer in a reply body to an image request: its
/// `message.content`; a body that is not JSON is refused with the parser's
/// message.
pub fn image_reply(body: &str) -> (r: Result<String, String>)
    ensures
        !spec_json_valid(body@) ==> r is Err && r->Err_0@ == crate::json::body_decode_message(),
        spec_json_valid(body@) ==> match spec_message_content(body@) {
            Some(c) => r is Ok && r->Ok_0@ == c,
            None => r is Err && r->Err_0@ == "Görsel analizi başarısız oldu."@,
        },
{
    match message_content(body) {
        Err(_) => Err(crate::json::body_decode_error()),
        Ok(None) => Err("Görsel analizi başarısız oldu.".to_owned()),
        Ok(Some(c)) => Ok(c),
    }
}

// ---------------------------------------------------------------------
// Export
// ---------------------------------------------------------------------

/// The export format named by `format`, or a refusal naming it.
pub fn export_format(format: &str) -> (r: Result<ExportFormat, String>)
    ensures
        match format_of(format@) {
            Some(f) => r == Ok::<ExportFormat, String>(f),
            None => r is Err && r->Err_0@ == "Desteklenmeyen dışa aktarma formatı: "@ + format@,
        },
{
    if str_eq(format, "txt") {
        Ok(ExportFormat::Txt)
    } else if str_eq(format, "xlsx") {
        Ok(ExportFormat::Xlsx)
    } else if str_eq(format, "docx") {
        Ok(ExportFormat::Docx)
    } else if str_eq(format, "pdf") {
        Ok(ExportFormat::Pdf)
    } else {
        let mut m = "Desteklenmeyen dışa aktarma formatı: ".to_owned();
        append_str(&mut m, format);
        Err(m)
    }
}

/// The Markdown source file written next to a pandoc export.
pub fn pandoc_source_path(output: &str) -> (r: String)
    ensures
        r@ == output@ + ".src.md"@,
{
    let mut r = output.to_owned();
    append_str(&mut r, ".src.md");
    r
}

/// The arguments of `pandoc` that convert `source` into `output` of the
/// given format.
pub fn pandoc_export_args(source: &str, output: &str, format: &str) -> (r: Vec<String>)
    ensures
        str_views(r@) == seq![source@, "-o"@, output@, "-t"@, format@],
{
    let r = vec![source.to_owned(), "-o".to_owned(), output.to_owned(), "-t".to_owned(), format.to_owned()];
    assert(str_views(r@) =~= seq![source@, "-o"@, output@, "-t"@, format@]);
    r
}

/// The error when pandoc fails to write a file of `format`.
pub fn pandoc_export_error(format: &str) -> (r: String)
    ensures
        r@ == format@ + " dosyası oluşturulamadı."@,
{
    let mut r = format.to_owned();
    append_str(&mut r, " dosyası oluşturulamadı.");
    r
}

/// The intermediate Word file of a PDF export: `{output}.tmp.docx`.
pub fn tmp_docx_path(output: &str) -> (r: String)
    ensures
        r@ == tmp_docx_of(output@),
{
    let mut r = output.to_owned();
    append_str(&mut r, ".tmp.docx");
    r
}

/// The directory LibreOffice writes the PDF into: the output's directory,
/// or `.` when it has none.
pub fn pdf_out_dir(output: &str) -> (r: String)
    ensures
        r@ == match spec_parent(output@) {
            Some(p) => p,
            None => "."@,
        },
{
    match path_parent(output) {
        Some(p) => p,
        None => ".".to_owned(),
    }
}

/// The arguments of LibreOffice that convert `docx` into a PDF in `out_dir`.
pub fn libreoffice_args(out_dir: &str, docx: &str) -> (r: Vec<String>)
    ensures
        str_views(r@) == seq!["--headless"@, "--convert-to"@, "pdf"@, "--outdir"@, out_dir@, docx@],
{
    let r = vec![
        "--headless".to_owned(),
        "--convert-to".to_owned(),
        "pdf".to_owned(),
        "--outdir".to_owned(),
        out_dir.to_owned(),
        docx.to_owned(),
    ];
    assert(str_views(r@) =~= seq!["--headless"@, "--convert-to"@, "pdf"@, "--outdir"@, out_dir@, docx@]);
    r
}

/// `s` with every trailing `p` removed.
fn trim_end_matches_str(s: &str, p: &str) -> (r: String)
    ensures
        r@ == trim_end_str(s@, p@),
{
    let v = crate::text::to_chars(s);
    let pv = crate::text::to_chars(p);
    if pv.len() == 0 {
        return s.to_owned();
    }
    let mut k = v.len();
    assert(v@.take(k as int) =~= v@);
    while k >= pv.len() && crate::text::occurs_at_exec(&v, &pv, k - pv.len())
        invariant
            k <= v.len(),
            pv@ == p@,
            pv@.len() > 0,
            trim_end_str(v@, p@) == trim_end_str(v@.take(k as int), p@),
        decreases k,
    {
        proof {
            let t = v@.take(k as int);
            assert(t.skip(t.len() - pv@.len()) =~= v@.subrange(k - pv@.len(), k as int));
            assert(t.take(t.len() - pv@.len()) =~= v@.take(k - pv@.len()));
        }
        k = k - pv.len();
    }
    proof {
        let t = v@.take(k as int);
        if pv@.len() <= t.len() {
            assert(t.skip(t.len() - pv@.len()) =~= v@.subrange(k - pv@.len(), k as int));
        }
    }
    crate::text::string_of_range(&v, 0, k)
}

/// The file LibreOffice produced from the intermediate Word file, which
/// is then moved to the output path.
pub fn produced_pdf_path(tmp_docx: &str) -> (r: String)
    ensures
        r@ == trim_end_str(tmp_docx@, ".docx"@) + ".pdf"@,
{
    let mut r = trim_end_matches_str(tmp_docx, ".docx");
    append_str(&mut r, ".pdf");
    r
}

// ---------------------------------------------------------------------
// Laws
// ---------------------------------------------------------------------

/// The PDF LibreOffice writes for an export to `output` is found at
/// `{output}.tmp.pdf`, whatever `output` is.
pub proof fn lemma_produced_pdf(output: Seq<char>)
    ensures
        produced_pdf_of(output) == output + ".tmp.pdf"@,
{
    reveal_strlit(".tmp.docx");
    reveal_strlit(".docx");
    reveal_strlit(".tmp");
    reveal_strlit(".tmp.pdf");
    reveal_strlit(".pdf");
    let s = output + ".tmp.docx"@;
    let p = ".docx"@;
    assert(s.skip(s.len() - p.len()) =~= p);
    let t = s.take(s.len() - p.len());
    assert(t =~= output + ".tmp"@);
    assert(trim_end_str(s, p) == trim_end_str(t, p));
    if p.len() <= t.len() {
        assert(t.skip(t.len() - p.len())[1] == '.');
        assert(p[1] == 'd');
        assert(t.skip(t.len() - p.len()) != p);
    }
    assert(trim_end_str(t, p) == t);
    assert(t + ".pdf"@ =~= output + ".tmp.pdf"@);
}

/// Which reader a document gets is decided by its lower-case extension
/// alone: spreadsheets (`xlsx`, `xls`, `xlsm`) with calamine, `pdf` with
/// pdftotext, Word documents (`docx`, `doc`, `odt`) with pandoc, plain text
/// (`txt`, `md`, `csv`) as it is; every other extension is refused.
pub proof fn lemma_document_readers(e: Seq<char>)
    ensures
        set!["xlsx"@, "xls"@, "xlsm"@].contains(e) <==> kind_of(e) == Some(DocumentKind::Spreadsheet),
        e == "pdf"@ <==> kind_of(e) == Some(DocumentKind::Pdf),
        set!["docx"@, "doc"@, "odt"@].contains(e) <==> kind_of(e) == Some(DocumentKind::Word),
        set!["txt"@, "md"@, "csv"@].contains(e) <==> kind_of(e) == Some(DocumentKind::PlainText),
        kind_of(e) is None <==> !set!["xlsx"@, "xls"@, "xlsm"@, "pdf"@, "docx"@, "doc"@, "odt"@, "txt"@, "md"@, "csv"@].contains(e),
{
    reveal_strlit("xlsx");
    reveal_strlit("xls");
    reveal_strlit("xlsm");
    reveal_strlit("pdf");
    reveal_strlit("docx");
    reveal_strlit("doc");
    reveal_strlit("odt");
    reveal_strlit("txt");
    reveal_strlit("md");
    reveal_strlit("csv");
    ext_names_differ();
}

/// The extension names are pairwise different.
proof fn ext_names_differ()
    ensures
        "xlsx"@ != "xls"@,
        "xlsx"@ != "xlsm"@,
        "xlsx"@ != "pdf"@,
        "xlsx"@ != "docx"@,
        "xlsx"@ != "doc"@,
        "xlsx"@ != "odt"@,
        "xlsx"@ != "txt"@,
        "xlsx"@ != "md"@,
        "xlsx"@ != "csv"@,
        "xls"@ != "xlsm"@,
        "xls"@ != "pdf"@,
        "xls"@ != "docx"@,
        "xls"@ != "doc"@,
        "xls"@ != "odt"@,
        "xls"@ != "txt"@,
        "xls"@ != "md"@,
        "xls"@ != "csv"@,
        "xlsm"@ != "pdf"@,
        "xlsm"@ != "docx"@,
        "xlsm"@ != "doc"@,
        "xlsm"@ != "odt"@,
        "xlsm"@ != "txt"@,
        "xlsm"@ != "md"@,
        "xlsm"@ != "csv"@,
        "pdf"@ != "docx"@,
        "pdf"@ != "doc"@,
        "pdf"@ != "odt"@,
        "pdf"@ != "txt"@,
        "pdf"@ != "md"@,
        "pdf"@ != "csv"@,
        "docx"@ != "doc"@,
        "docx"@ != "odt"@,
        "docx"@ != "txt"@,
        "docx"@ != "md"@,
        "docx"@ != "csv"@,
        "doc"@ != "odt"@,
        "doc"@ != "txt"@,
        "doc"@ != "md"@,
        "doc"@ != "csv"@,
        "odt"@ != "txt"@,
        "odt"@ != "md"@,
        "odt"@ != "csv"@,
        "txt"@ != "md"@,
        "txt"@ != "csv"@,
        "md"@ != "csv"@,
{
    reveal_strlit("xlsx");
    reveal_strlit("xls");
    reveal_strlit("xlsm");
    reveal_strlit("pdf");
    reveal_strlit("docx");
    reveal_strlit("doc");
    reveal_strlit("odt");
    reveal_strlit("txt");
    reveal_strlit("md");
    reveal_strlit("csv");
    assert("xlsx"@.len() != "xls"@.len());
    assert("xlsx"@[3] != "xlsm"@[3]);
    assert("xlsx"@.len() != "pdf"@.len());
    assert("xlsx"@[0] != "docx"@[0]);
    assert("xlsx"@.len() != "doc"@.len());
    assert("xlsx"@.len() != "odt"@.len());
    assert("xlsx"@.len() != "txt"@.len());
    assert("xlsx"@.len() != "md"@.len());
    assert("xlsx"@.len() != "csv"@.len());
    assert("xls"@.len() != "xlsm"@.len());
    assert("xls"@[0] != "pdf"@[0]);
    assert("xls"@.len() != "docx"@.len());
    assert("xls"@[0] != "doc"@[0]);
    assert("xls"@[0] != "odt"@[0]);
    assert("xls"@[0] != "txt"@[0]);
    assert("xls"@.len() != "md"@.len());
    assert("xls"@[0] != "csv"@[0]);
    assert("xlsm"@.len() != "pdf"@.len());
    assert("xlsm"@[0] != "docx"@[0]);
    assert("xlsm"@.len() != "doc"@.len());
    assert("xlsm"@.len() != "odt"@.len());
    assert("xlsm"@.len() != "txt"@.len());
    assert("xlsm"@.len() != "md"@.len());
    assert("xlsm"@.len() != "csv"@.len());
    assert("pdf"@.len() != "docx"@.len());
    assert("pdf"@[0] != "doc"@[0]);
    assert("pdf"@[0] != "odt"@[0]);
    assert("pdf"@[0] != "txt"@[0]);
    assert("pdf"@.len() != "md"@.len());
    assert("pdf"@[0] != "csv"@[0]);
    assert("docx"@.len() != "doc"@.len());
    assert("docx"@.len() != "odt"@.len());
    assert("docx"@.len() != "txt"@.len());
    assert("docx"@.len() != "md"@.len());
    assert("docx"@.len() != "csv"@.len());
    assert("doc"@[0] != "odt"@[0]);
    assert("doc"@[0] != "txt"@[0]);
    assert("doc"@.len() != "md"@.len());
    assert("doc"@[0] != "csv"@[0]);
    assert("odt"@[0] != "txt"@[0]);
    assert("odt"@.len() != "md"@.len());
    assert("odt"@[0] != "csv"@[0]);
    assert("txt"@.len() != "md"@.len());
    assert("txt"@[0] != "csv"@[0]);
    assert("md"@.len() != "csv"@.len());
}

/// Each export format has its own name: `txt`, `xlsx`, `docx` and `pdf`
/// name the plain-text, workbook, Word and PDF exports, no two names give
/// the same format, and every other name is refused.
pub proof fn lemma_export_formats(a: Seq<char>, b: Seq<char>)
    ensures
        format_of("txt"@) == Some(ExportFormat::Txt),
        format_of("xlsx"@) == Some(ExportFormat::Xlsx),
        format_of("docx"@) == Some(ExportFormat::Docx),
        format_of("pdf"@) == Some(ExportFormat::Pdf),
        format_of(a) is Some && format_of(a) == format_of(b) ==> a == b,
        format_of(a) is None <==> !set!["txt"@, "xlsx"@, "docx"@, "pdf"@].contains(a),
{
    reveal_strlit("txt");
    reveal_strlit("xlsx");
    reveal_strlit("docx");
    reveal_strlit("pdf");
    assert("txt"@[0] != "xlsx"@[0]);
    assert("txt"@[0] != "docx"@[0]);
    assert("txt"@[0] != "pdf"@[0]);
    assert("xlsx"@[0] != "docx"@[0]);
    assert("xlsx"@[0] != "pdf"@[0]);
    assert("docx"@[0] != "pdf"@[0]);
}

} // verus!
