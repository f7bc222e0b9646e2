//! The dependency report: which local tools and services are available,
//! what each is needed for, and how a missing one can be installed; and the
//! command that installs missing system packages in a terminal window.
use crate::text::{append_str, join, join_strings, str_views, u64_to_string, decimal};
use vstd::prelude::*;

verus! {

/// One line of the dependency report.
pub struct CheckResult {
    pub name: String,
    pub ok: bool,
    pub detail: String,
    /// Whether the application can install it itself, without `sudo`.
    pub auto_installable: bool,
    /// The system package(s) that provide it, where there are any.
    pub apt_package: Option<String>,
}

/// The whole dependency report.
pub struct DiagnosticsReport {
    pub checks: Vec<CheckResult>,
    pub app_version: String,
}

/// What was found on this machine.
#[derive(Clone, Copy)]
pub struct Probes {
    /// The local engine answers on its port.
    pub ollama_running: bool,
    /// How many models the local engine lists (asked only when it runs).
    pub model_count: usize,
    pub ffmpeg: bool,
    pub zstd: bool,
    /// The translation service answers on its port.
    pub libretranslate_running: bool,
    pub video2x_on_path: bool,
    /// The portable video2x image exists in the application's directory.
    pub video2x_portable: bool,
    pub whisper_cli: bool,
    pub piper_on_path: bool,
    /// The portable piper binary exists in the application's directory.
    pub piper_portable: bool,
    pub pandoc: bool,
    pub pdftotext: bool,
    pub libreoffice: bool,
    pub xdotool: bool,
    pub tesseract: bool,
    pub python3: bool,
}

/// The terminal programs found on this machine.
#[derive(Clone, Copy)]
pub struct Terminals {
    pub gnome_terminal: bool,
    pub konsole: bool,
    pub xfce4_terminal: bool,
    pub xterm: bool,
}

// ---------------------------------------------------------------------
// Specifications
// ---------------------------------------------------------------------

/// A report line as plain values.
pub type CheckView = (Seq<char>, bool, Seq<char>, bool, Option<Seq<char>>);

/// `(name, ok, detail, auto_installable, apt_package)` of a line.
pub open spec fn check_view(c: CheckResult) -> CheckView {
    (c.name@, c.ok, c.detail@, c.auto_installable, crate::json::opt_str(c.apt_package))
}

/// The lines of a report as plain values.
pub open spec fn check_views(cs: Seq<CheckResult>) -> Seq<CheckView> {
    cs.map_values(|c: CheckResult| check_view(c))
}

/// The number of models counted: none when the engine does not run.
pub open spec fn counted_models(p: Probes) -> nat {
    if p.ollama_running {
        p.model_count as nat
    } else {
        0
    }
}

/// The detail of the local engine's line.
pub open spec fn ollama_detail(running: bool) -> Seq<char> {
    if running {
        "Çalışıyor (127.0.0.1:11434)"@
    } else {
        "Bulunamadı ya da çalışmıyor"@
    }
}

/// The fourteen lines of the report, in order.
pub open spec fn expected_checks(p: Probes) -> Seq<CheckView> {
    let video2x = p.video2x_on_path || p.video2x_portable;
    let piper = p.piper_on_path || p.piper_portable;
    seq![
        ("Ollama"@, p.ollama_running, ollama_detail(p.ollama_running), !p.ollama_running, None),
        ("İndirilmiş Model"@, counted_models(p) > 0, decimal(counted_models(p)) + " model bulundu"@, false, None),
        ("ffmpeg"@, p.ffmpeg, ffmpeg_detail()@, false, Some("ffmpeg"@)),
        ("zstd"@, p.zstd, zstd_detail()@, false, Some("zstd"@)),
        ("LibreTranslate (opsiyonel)"@, p.libretranslate_running, libretranslate_detail()@, false, None),
        ("Video2X"@, video2x, "Video kalite artırma için gerekli"@, !video2x, None),
        ("whisper.cpp (whisper-cli)"@, p.whisper_cli, whisper_detail()@, false, None),
        ("Piper TTS"@, piper, piper_detail()@, !piper, None),
        ("pandoc"@, p.pandoc, "Word okuma, Word/PDF üretimi için gerekli"@, false, Some("pandoc"@)),
        ("poppler-utils (pdftotext)"@, p.pdftotext, "PDF okuma için gerekli"@, false, Some("poppler-utils"@)),
        ("LibreOffice"@, p.libreoffice, "PDF üretimi için gerekli"@, false, Some("libreoffice"@)),
        ("xdotool"@, p.xdotool, xdotool_detail()@, false, Some("xdotool"@)),
        ("tesseract-ocr"@, p.tesseract, "Toplu PDF OCR (Görevler sekmesi) için gerekli"@, false, Some("tesseract-ocr tesseract-ocr-tur"@)),
        ("Python 3"@, p.python3, python_detail()@, false, Some("python3"@)),
    ]
}

pub open spec fn ffmpeg_detail() -> &'static str {
    "Altyazı, dublaj, mikrofon kaydı ve seslendirme çalma için gerekli"
}

pub open spec fn zstd_detail() -> &'static str {
    "Ollama'nın otomatik (sudo'suz) kurulumu için gerekli (.tar.zst arşiv formatı)"
}

pub open spec fn libretranslate_detail() -> &'static str {
    "Altyazı çevirisinde alternatif motor — özel eğitilmiş, genelde Ollama'dan daha tutarlı çeviri verir. Kurulum: docker run -ti -p 5000:5000 libretranslate/libretranslate"
}

pub open spec fn whisper_detail() -> &'static str {
    "Sesle tanıma ve altyazı üretimi için gerekli (github.com/ggerganov/whisper.cpp, derleyip PATH'e eklenmeli)"
}

pub open spec fn piper_detail() -> &'static str {
    "Sesli okuma ve dublaj için gerekli, opsiyonel (github.com/rhasspy/piper)"
}

pub open spec fn xdotool_detail() -> &'static str {
    "Kullanım alışkanlığı takibi için gerekli (yalnızca X11, Wayland'de çalışmaz)"
}

pub open spec fn python_detail() -> &'static str {
    "Amorfly'ın çekirdek özellikleri için GEREKLİ DEĞİL — Rust/CLI araçları kullanıyoruz. Bazı ileri düzey harici modeller opsiyonel olarak isteyebilir."
}

/// The shell command that installs `packages` in a terminal window.
pub open spec fn install_command_spec(packages: Seq<Seq<char>>) -> Seq<char> {
    "sudo apt update && sudo apt install -y "@ + join(packages, " "@)
        + "; echo; echo 'Kurulum bitti, bu pencereyi kapatabilirsin.'; exec bash"@
}

/// The program and arguments that open the first terminal found (in the
/// order GNOME Terminal, Konsole, Xfce Terminal, xterm) running `cmd`.
pub open spec fn terminal_launch_spec(t: Terminals, cmd: Seq<char>) -> Option<(Seq<char>, Seq<Seq<char>>)> {
    if t.gnome_terminal {
        Some(("gnome-terminal"@, seq!["--"@, "bash"@, "-c"@, cmd]))
    } else if t.konsole {
        Some(("konsole"@, seq!["-e"@, "bash"@, "-c"@, cmd]))
    } else if t.xfce4_terminal {
        Some(("xfce4-terminal"@, seq!["-e"@, "bash -c \""@ + cmd + "\""@]))
    } else if t.xterm {
        Some(("xterm"@, seq!["-e"@, "bash"@, "-c"@, cmd]))
    } else {
        None
    }
}

// ---------------------------------------------------------------------
// Report
// ---------------------------------------------------------------------

fn ffmpeg_detail_text() -> (s: &'static str)
    ensures
        s@ == ffmpeg_detail()@,
{
    "Altyazı, dublaj, mikrofon kaydı ve seslendirme çalma için gerekli"
}

fn zstd_detail_text() -> (s: &'static str)
    ensures
        s@ == zstd_detail()@,
{
    "Ollama'nın otomatik (sudo'suz) kurulumu için gerekli (.tar.zst arşiv formatı)"
}

fn libretranslate_detail_text() -> (s: &'static str)
    ensures
        s@ == libretranslate_detail()@,
{
    "Altyazı çevirisinde alternatif motor — özel eğitilmiş, genelde Ollama'dan daha tutarlı çeviri verir. Kurulum: docker run -ti -p 5000:5000 libretranslate/libretranslate"
}

fn whisper_detail_text() -> (s: &'static str)
    ensures
        s@ == whisper_detail()@,
{
    "Sesle tanıma ve altyazı üretimi için gerekli (github.com/ggerganov/whisper.cpp, derleyip PATH'e eklenmeli)"
}

fn piper_detail_text() -> (s: &'static str)
    ensures
        s@ == piper_detail()@,
{
    "Sesli okuma ve dublaj için gerekli, opsiyonel (github.com/rhasspy/piper)"
}

fn xdotool_detail_text() -> (s: &'static str)
    ensures
        s@ == xdotool_detail()@,
{
    "Kullanım alışkanlığı takibi için gerekli (yalnızca X11, Wayland'de çalışmaz)"
}

fn python_detail_text() -> (s: &'static str)
    ensures
        s@ == python_detail()@,
{
    "Amorfly'ın çekirdek özellikleri için GEREKLİ DEĞİL — Rust/CLI araçları kullanıyoruz. Bazı ileri düzey harici modeller opsiyonel olarak isteyebilir."
}

/// One report line.
fn check(name: &str, ok: bool, detail: String, auto_installable: bool, apt_package: Option<&str>) -> (r:
    CheckResult)
    ensures
        check_view(r) == (name@, ok, detail@, auto_installable, match apt_package {
            Some(p) => Some(p@),
            None => None::<Seq<char>>,
        }),
{
    CheckResult {
        name: name.to_owned(),
        ok,
        detail,
        auto_installable,
        apt_package: match apt_package {
            Some(p) => Some(p.to_owned()),
            None => None,
        },
    }
}

/// The dependency report for what was found on this machine.
pub fn diagnostics_report(probes: &Probes, app_version: String) -> (r: DiagnosticsReport)
    ensures
        check_views(r.checks@) == expected_checks(*probes),
        r.app_version@ == app_version@,
{
    let p = *probes;
    let mut checks: Vec<CheckResult> = Vec::new();
    let ollama_detail = if p.ollama_running {
        "Çalışıyor (127.0.0.1:11434)".to_owned()
    } else {
        "Bulunamadı ya da çalışmıyor".to_owned()
    };
    checks.push(check("Ollama", p.ollama_running, ollama_detail, !p.ollama_running, None));

    let model_count: usize = if p.ollama_running {
        p.model_count
    } else {
        0
    };
    let mut count_detail = u64_to_string(model_count as u64);
    append_str(&mut count_detail, " model bulundu");
    checks.push(check("İndirilmiş Model", model_count > 0, count_detail, false, None));

    checks.push(check("ffmpeg", p.ffmpeg, ffmpeg_detail_text().to_owned(), false, Some("ffmpeg")));
    checks.push(check("zstd", p.zstd, zstd_detail_text().to_owned(), false, Some("zstd")));
    checks.push(
        check(
            "LibreTranslate (opsiyonel)",
            p.libretranslate_running,
            libretranslate_detail_text().to_owned(),
            false,
            None,
        ),
    );
    let video2x = p.video2x_on_path || p.video2x_portable;
    checks.push(check("Video2X", video2x, "Video kalite artırma için gerekli".to_owned(), !video2x, None));
    checks.push(
        check("whisper.cpp (whisper-cli)", p.whisper_cli, whisper_detail_text().to_owned(), false, None),
    );
    let piper = p.piper_on_path || p.piper_portable;
    checks.push(check("Piper TTS", piper, piper_detail_text().to_owned(), !piper, None));
    checks.push(
        check(
            "pandoc",
            p.pandoc,
            "Word okuma, Word/PDF üretimi için gerekli".to_owned(),
            false,
            Some("pandoc"),
        ),
    );
    checks.push(
        check(
            "poppler-utils (pdftotext)",
            p.pdftotext,
            "PDF okuma için gerekli".to_owned(),
            false,
            Some("poppler-utils"),
        ),
    );
    checks.push(
        check("LibreOffice", p.libreoffice, "PDF üretimi için gerekli".to_owned(), false, Some("libreoffice")),
    );
    checks.push(check("xdotool", p.xdotool, xdotool_detail_text().to_owned(), false, Some("xdotool")));
    checks.push(
        check(
            "tesseract-ocr",
            p.tesseract,
            "Toplu PDF OCR (Görevler sekmesi) için gerekli".to_owned(),
            false,
            Some("tesseract-ocr tesseract-ocr-tur"),
        ),
    );
    checks.push(check("Python 3", p.python3, python_detail_text().to_owned(), false, Some("python3")));
    proof {
        assert(check_views(checks@) =~= expected_checks(p));
    }
    DiagnosticsReport { checks, app_version }
}

/// Whether some line of the report has the name `n`.
pub open spec fn line_named(cs: Seq<CheckView>, n: Seq<char>) -> bool {
    exists|i: int| 0 <= i < cs.len() && (#[trigger] cs[i]).0 == n
}

/// Each line of the report says whether its own tool was found: the line of
/// a tool is there, and its `ok` is that tool's probe and no other's (the
/// model line is ok when the engine runs and lists a model; video2x and
/// piper count on the path or as the portable copy).
pub proof fn lemma_each_line_probes_its_tool(p: Probes)
    ensures
        line_named(expected_checks(p), "Ollama"@),
        forall|i: int|
            0 <= i < expected_checks(p).len() && (#[trigger] expected_checks(p)[i]).0 == "Ollama"@ ==> expected_checks(p)[i].1 == (p.ollama_running),
        line_named(expected_checks(p), "İndirilmiş Model"@),
        forall|i: int|
            0 <= i < expected_checks(p).len() && (#[trigger] expected_checks(p)[i]).0 == "İndirilmiş Model"@ ==> expected_checks(p)[i].1 == (p.ollama_running && p.model_count > 0),
        line_named(expected_checks(p), "ffmpeg"@),
        forall|i: int|
            0 <= i < expected_checks(p).len() && (#[trigger] expected_checks(p)[i]).0 == "ffmpeg"@ ==> expected_checks(p)[i].1 == (p.ffmpeg),
        line_named(expected_checks(p), "zstd"@),
        forall|i: int|
            0 <= i < expected_checks(p).len() && (#[trigger] expected_checks(p)[i]).0 == "zstd"@ ==> expected_checks(p)[i].1 == (p.zstd),
        line_named(expected_checks(p), "LibreTranslate (opsiyonel)"@),
        forall|i: int|
            0 <= i < expected_checks(p).len() && (#[trigger] expected_checks(p)[i]).0 == "LibreTranslate (opsiyonel)"@ ==> expected_checks(p)[i].1 == (p.libretranslate_running),
        line_named(expected_checks(p), "Video2X"@),
        forall|i: int|
            0 <= i < expected_checks(p).len() && (#[trigger] expected_checks(p)[i]).0 == "Video2X"@ ==> expected_checks(p)[i].1 == (p.video2x_on_path || p.video2x_portable),
        line_named(expected_checks(p), "whisper.cpp (whisper-cli)"@),
        forall|i: int|
            0 <= i < expected_checks(p).len() && (#[trigger] expected_checks(p)[i]).0 == "whisper.cpp (whisper-cli)"@ ==> expected_checks(p)[i].1 == (p.whisper_cli),
        line_named(expected_checks(p), "Piper TTS"@),
        forall|i: int|
            0 <= i < expected_checks(p).len() && (#[trigger] expected_checks(p)[i]).0 == "Piper TTS"@ ==> expected_checks(p)[i].1 == (p.piper_on_path || p.piper_portable),
        line_named(expected_checks(p), "pandoc"@),
        forall|i: int|
            0 <= i < expected_checks(p).len() && (#[trigger] expected_checks(p)[i]).0 == "pandoc"@ ==> expected_checks(p)[i].1 == (p.pandoc),
        line_named(expected_checks(p), "poppler-utils (pdftotext)"@),
        forall|i: int|
            0 <= i < expected_checks(p).len() && (#[trigger] expected_checks(p)[i]).0 == "poppler-utils (pdftotext)"@ ==> expected_checks(p)[i].1 == (p.pdftotext),
        line_named(expected_checks(p), "LibreOffice"@),
        forall|i: int|
            0 <= i < expected_checks(p).len() && (#[trigger] expected_checks(p)[i]).0 == "LibreOffice"@ ==> expected_checks(p)[i].1 == (p.libreoffice),
        line_named(expected_checks(p), "xdotool"@),
        forall|i: int|
            0 <= i < expected_checks(p).len() && (#[trigger] expected_checks(p)[i]).0 == "xdotool"@ ==> expected_checks(p)[i].1 == (p.xdotool),
        line_named(expected_checks(p), "tesseract-ocr"@),
        forall|i: int|
            0 <= i < expected_checks(p).len() && (#[trigger] expected_checks(p)[i]).0 == "tesseract-ocr"@ ==> expected_checks(p)[i].1 == (p.tesseract),
        line_named(expected_checks(p), "Python 3"@),
        forall|i: int|
            0 <= i < expected_checks(p).len() && (#[trigger] expected_checks(p)[i]).0 == "Python 3"@ ==> expected_checks(p)[i].1 == (p.python3),
{
    check_names_differ();
    let cs = expected_checks(p);
    assert(cs.len() == 14);
    assert(cs[0].0 == "Ollama"@);
    assert(cs[1].0 == "İndirilmiş Model"@);
    assert(cs[2].0 == "ffmpeg"@);
    assert(cs[3].0 == "zstd"@);
    assert(cs[4].0 == "LibreTranslate (opsiyonel)"@);
    assert(cs[5].0 == "Video2X"@);
    assert(cs[6].0 == "whisper.cpp (whisper-cli)"@);
    assert(cs[7].0 == "Piper TTS"@);
    assert(cs[8].0 == "pandoc"@);
    assert(cs[9].0 == "poppler-utils (pdftotext)"@);
    assert(cs[10].0 == "LibreOffice"@);
    assert(cs[11].0 == "xdotool"@);
    assert(cs[12].0 == "tesseract-ocr"@);
    assert(cs[13].0 == "Python 3"@);
}

/// The report's line names are pairwise different.
proof fn check_names_differ()
    ensures
        "Ollama"@ != "İndirilmiş Model"@,
        "Ollama"@ != "ffmpeg"@,
        "Ollama"@ != "zstd"@,
        "Ollama"@ != "LibreTranslate (opsiyonel)"@,
        "Ollama"@ != "Video2X"@,
        "Ollama"@ != "whisper.cpp (whisper-cli)"@,
        "Ollama"@ != "Piper TTS"@,
        "Ollama"@ != "pandoc"@,
        "Ollama"@ != "poppler-utils (pdftotext)"@,
        "Ollama"@ != "LibreOffice"@,
        "Ollama"@ != "xdotool"@,
        "Ollama"@ != "tesseract-ocr"@,
        "Ollama"@ != "Python 3"@,
        "İndirilmiş Model"@ != "ffmpeg"@,
        "İndirilmiş Model"@ != "zstd"@,
        "İndirilmiş Model"@ != "LibreTranslate (opsiyonel)"@,
        "İndirilmiş Model"@ != "Video2X"@,
        "İndirilmiş Model"@ != "whisper.cpp (whisper-cli)"@,
        "İndirilmiş Model"@ != "Piper TTS"@,
        "İndirilmiş Model"@ != "pandoc"@,
        "İndirilmiş Model"@ != "poppler-utils (pdftotext)"@,
        "İndirilmiş Model"@ != "LibreOffice"@,
        "İndirilmiş Model"@ != "xdotool"@,
        "İndirilmiş Model"@ != "tesseract-ocr"@,
        "İndirilmiş Model"@ != "Python 3"@,
        "ffmpeg"@ != "zstd"@,
        "ffmpeg"@ != "LibreTranslate (opsiyonel)"@,
        "ffmpeg"@ != "Video2X"@,
        "ffmpeg"@ != "whisper.cpp (whisper-cli)"@,
        "ffmpeg"@ != "Piper TTS"@,
        "ffmpeg"@ != "pandoc"@,
        "ffmpeg"@ != "poppler-utils (pdftotext)"@,
        "ffmpeg"@ != "LibreOffice"@,
        "ffmpeg"@ != "xdotool"@,
        "ffmpeg"@ != "tesseract-ocr"@,
        "ffmpeg"@ != "Python 3"@,
        "zstd"@ != "LibreTranslate (opsiyonel)"@,
        "zstd"@ != "Video2X"@,
        "zstd"@ != "whisper.cpp (whisper-cli)"@,
        "zstd"@ != "Piper TTS"@,
        "zstd"@ != "pandoc"@,
        "zstd"@ != "poppler-utils (pdftotext)"@,
        "zstd"@ != "LibreOffice"@,
        "zstd"@ != "xdotool"@,
        "zstd"@ != "tesseract-ocr"@,
        "zstd"@ != "Python 3"@,
        "LibreTranslate (opsiyonel)"@ != "Video2X"@,
        "LibreTranslate (opsiyonel)"@ != "whisper.cpp (whisper-cli)"@,
        "LibreTranslate (opsiyonel)"@ != "Piper TTS"@,
        "LibreTranslate (opsiyonel)"@ != "pandoc"@,
        "LibreTranslate (opsiyonel)"@ != "poppler-utils (pdftotext)"@,
        "LibreTranslate (opsiyonel)"@ != "LibreOffice"@,
        "LibreTranslate (opsiyonel)"@ != "xdotool"@,
        "LibreTranslate (opsiyonel)"@ != "tesseract-ocr"@,
        "LibreTranslate (opsiyonel)"@ != "Python 3"@,
        "Video2X"@ != "whisper.cpp (whisper-cli)"@,
        "Video2X"@ != "Piper TTS"@,
        "Video2X"@ != "pandoc"@,
        "Video2X"@ != "poppler-utils (pdftotext)"@,
        "Video2X"@ != "LibreOffice"@,
        "Video2X"@ != "xdotool"@,
        "Video2X"@ != "tesseract-ocr"@,
        "Video2X"@ != "Python 3"@,
        "whisper.cpp (whisper-cli)"@ != "Piper TTS"@,
        "whisper.cpp (whisper-cli)"@ != "pandoc"@,
        "whisper.cpp (whisper-cli)"@ != "poppler-utils (pdftotext)"@,
        "whisper.cpp (whisper-cli)"@ != "LibreOffice"@,
        "whisper.cpp (whisper-cli)"@ != "xdotool"@,
        "whisper.cpp (whisper-cli)"@ != "tesseract-ocr"@,
        "whisper.cpp (whisper-cli)"@ != "Python 3"@,
        "Piper TTS"@ != "pandoc"@,
        "Piper TTS"@ != "poppler-utils (pdftotext)"@,
        "Piper TTS"@ != "LibreOffice"@,
        "Piper TTS"@ != "xdotool"@,
        "Piper TTS"@ != "tesseract-ocr"@,
        "Piper TTS"@ != "Python 3"@,
        "pandoc"@ != "poppler-utils (pdftotext)"@,
        "pandoc"@ != "LibreOffice"@,
        "pandoc"@ != "xdotool"@,
        "pandoc"@ != "tesseract-ocr"@,
        "pandoc"@ != "Python 3"@,
        "poppler-utils (pdftotext)"@ != "LibreOffice"@,
        "poppler-utils (pdftotext)"@ != "xdotool"@,
        "poppler-utils (pdftotext)"@ != "tesseract-ocr"@,
        "poppler-utils (pdftotext)"@ != "Python 3"@,
        "LibreOffice"@ != "xdotool"@,
        "LibreOffice"@ != "tesseract-ocr"@,
        "LibreOffice"@ != "Python 3"@,
        "xdotool"@ != "tesseract-ocr"@,
        "xdotool"@ != "Python 3"@,
        "tesseract-ocr"@ != "Python 3"@,
{
    reveal_strlit("Ollama");
    reveal_strlit("İndirilmiş Model");
    reveal_strlit("ffmpeg");
    reveal_strlit("zstd");
    reveal_strlit("LibreTranslate (opsiyonel)");
    reveal_strlit("Video2X");
    reveal_strlit("whisper.cpp (whisper-cli)");
    reveal_strlit("Piper TTS");
    reveal_strlit("pandoc");
    reveal_strlit("poppler-utils (pdftotext)");
    reveal_strlit("LibreOffice");
    reveal_strlit("xdotool");
    reveal_strlit("tesseract-ocr");
    reveal_strlit("Python 3");
    assert("Ollama"@.len() != "İndirilmiş Model"@.len());
    assert("Ollama"@[0] != "ffmpeg"@[0]);
    assert("Ollama"@.len() != "zstd"@.len());
    assert("Ollama"@.len() != "LibreTranslate (opsiyonel)"@.len());
    assert("Ollama"@.len() != "Video2X"@.len());
    assert("Ollama"@.len() != "whisper.cpp (whisper-cli)"@.len());
    assert("Ollama"@.len() != "Piper TTS"@.len());
    assert("Ollama"@[0] != "pandoc"@[0]);
    assert("Ollama"@.len() != "poppler-utils (pdftotext)"@.len());
    assert("Ollama"@.len() != "LibreOffice"@.len());
    assert("Ollama"@.len() != "xdotool"@.len());
    assert("Ollama"@.len() != "tesseract-ocr"@.len());
    assert("Ollama"@.len() != "Python 3"@.len());
    assert("İndirilmiş Model"@.len() != "ffmpeg"@.len());
    assert("İndirilmiş Model"@.len() != "zstd"@.len());
    assert("İndirilmiş Model"@.len() != "LibreTranslate (opsiyonel)"@.len());
    assert("İndirilmiş Model"@.len() != "Video2X"@.len());
    assert("İndirilmiş Model"@.len() != "whisper.cpp (whisper-cli)"@.len());
    assert("İndirilmiş Model"@.len() != "Piper TTS"@.len());
    assert("İndirilmiş Model"@.len() != "pandoc"@.len());
    assert("İndirilmiş Model"@.len() != "poppler-utils (pdftotext)"@.len());
    assert("İndirilmiş Model"@.len() != "LibreOffice"@.len());
    assert("İndirilmiş Model"@.len() != "xdotool"@.len());
    assert("İndirilmiş Model"@.len() != "tesseract-ocr"@.len());
    assert("İndirilmiş Model"@.len() != "Python 3"@.len());
    assert("ffmpeg"@.len() != "zstd"@.len());
    assert("ffmpeg"@.len() != "LibreTranslate (opsiyonel)"@.len());
    assert("ffmpeg"@.len() != "Video2X"@.len());
    assert("ffmpeg"@.len() != "whisper.cpp (whisper-cli)"@.len());
    assert("ffmpeg"@.len() != "Piper TTS"@.len());
    assert("ffmpeg"@[0] != "pandoc"@[0]);
    assert("ffmpeg"@.len() != "poppler-utils (pdftotext)"@.len());
    assert("ffmpeg"@.len() != "LibreOffice"@.len());
    assert("ffmpeg"@.len() != "xdotool"@.len());
    assert("ffmpeg"@.len() != "tesseract-ocr"@.len());
    assert("ffmpeg"@.len() != "Python 3"@.len());
    assert("zstd"@.len() != "LibreTranslate (opsiyonel)"@.len());
    assert("zstd"@.len() != "Video2X"@.len());
    assert("zstd"@.len() != "whisper.cpp (whisper-cli)"@.len());
    assert("zstd"@.len() != "Piper TTS"@.len());
    assert("zstd"@.len() != "pandoc"@.len());
    assert("zstd"@.len() != "poppler-utils (pdftotext)"@.len());
    assert("zstd"@.len() != "LibreOffice"@.len());
    assert("zstd"@.len() != "xdotool"@.len());
    assert("zstd"@.len() != "tesseract-ocr"@.len());
    assert("zstd"@.len() != "Python 3"@.len());
    assert("LibreTranslate (opsiyonel)"@.len() != "Video2X"@.len());
    assert("LibreTranslate (opsiyonel)"@.len() != "whisper.cpp (whisper-cli)"@.len());
    assert("LibreTranslate (opsiyonel)"@.len() != "Piper TTS"@.len());
    assert("LibreTranslate (opsiyonel)"@.len() != "pandoc"@.len());
    assert("LibreTranslate (opsiyonel)"@.len() != "poppler-utils (pdftotext)"@.len());
    assert("LibreTranslate (opsiyonel)"@.len() != "LibreOffice"@.len());
    assert("LibreTranslate (opsiyonel)"@.len() != "xdotool"@.len());
    assert("LibreTranslate (opsiyonel)"@.len() != "tesseract-ocr"@.len());
    assert("LibreTranslate (opsiyonel)"@.len() != "Python 3"@.len());
    assert("Video2X"@.len() != "whisper.cpp (whisper-cli)"@.len());
    assert("Video2X"@.len() != "Piper TTS"@.len());
    assert("Video2X"@.len() != "pandoc"@.len());
    assert("Video2X"@.len() != "poppler-utils (pdftotext)"@.len());
    assert("Video2X"@.len() != "LibreOffice"@.len());
    assert("Video2X"@[0] != "xdotool"@[0]);
    assert("Video2X"@.len() != "tesseract-ocr"@.len());
    assert("Video2X"@.len() != "Python 3"@.len());
    assert("whisper.cpp (whisper-cli)"@.len() != "Piper TTS"@.len());
    assert("whisper.cpp (whisper-cli)"@.len() != "pandoc"@.len());
    assert("whisper.cpp (whisper-cli)"@[0] != "poppler-utils (pdftotext)"@[0]);
    assert("whisper.cpp (whisper-cli)"@.len() != "LibreOffice"@.len());
    assert("whisper.cpp (whisper-cli)"@.len() != "xdotool"@.len());
    assert("whisper.cpp (whisper-cli)"@.len() != "tesseract-ocr"@.len());
    assert("whisper.cpp (whisper-cli)"@.len() != "Python 3"@.len());
    assert("Piper TTS"@.len() != "pandoc"@.len());
    assert("Piper TTS"@.len() != "poppler-utils (pdftotext)"@.len());
    assert("Piper TTS"@.len() != "LibreOffice"@.len());
    assert("Piper TTS"@.len() != "xdotool"@.len());
    assert("Piper TTS"@.len() != "tesseract-ocr"@.len());
    assert("Piper TTS"@.len() != "Python 3"@.len());
    assert("pandoc"@.len() != "poppler-utils (pdftotext)"@.len());
    assert("pandoc"@.len() != "LibreOffice"@.len());
    assert("pandoc"@.len() != "xdotool"@.len());
    assert("pandoc"@.len() != "tesseract-ocr"@.len());
    assert("pandoc"@.len() != "Python 3"@.len());
    assert("poppler-utils (pdftotext)"@.len() != "LibreOffice"@.len());
    assert("poppler-utils (pdftotext)"@.len() != "xdotool"@.len());
    assert("poppler-utils (pdftotext)"@.len() != "tesseract-ocr"@.len());
    assert("poppler-utils (pdftotext)"@.len() != "Python 3"@.len());
    assert("LibreOffice"@.len() != "xdotool"@.len());
    assert("LibreOffice"@.len() != "tesseract-ocr"@.len());
    assert("LibreOffice"@.len() != "Python 3"@.len());
    assert("xdotool"@.len() != "tesseract-ocr"@.len());
    assert("xdotool"@.len() != "Python 3"@.len());
    assert("tesseract-ocr"@.len() != "Python 3"@.len());
}

// ---------------------------------------------------------------------
// Installing system packages
// ---------------------------------------------------------------------

/// The refusal of an unconfirmed install request.
pub fn unconfirmed_install_error() -> (r: String)
    ensures
        r@ == "Onaylanmamış kurulum isteği — güvenlik nedeniyle çalıştırılmadı."@,
{
    "Onaylanmamış kurulum isteği — güvenlik nedeniyle çalıştırılmadı.".to_owned()
}

/// An install request goes ahead only once the user has confirmed it.
pub fn confirm_install(confirmed: bool) -> (r: Result<(), String>)
    ensures
        r is Ok <==> confirmed,
        r matches Err(e) ==> e@ == "Onaylanmamış kurulum isteği — güvenlik nedeniyle çalıştırılmadı."@,
{
    if confirmed {
        Ok(())
    } else {
        Err(unconfirmed_install_error())
    }
}

/// The arguments of `pkexec` that install `packages` through the
/// graphical password prompt.
pub fn pkexec_args(packages: &Vec<String>) -> (r: Vec<String>)
    ensures
        str_views(r@) == seq!["apt-get"@, "install"@, "-y"@] + str_views(packages@),
{
    let mut r: Vec<String> = Vec::new();
    r.push("apt-get".to_owned());
    r.push("install".to_owned());
    r.push("-y".to_owned());
    let mut i: usize = 0;
    while i < packages.len()
        invariant
            i <= packages.len(),
            str_views(r@) == seq!["apt-get"@, "install"@, "-y"@] + str_views(packages@).take(i as int),
        decreases packages.len() - i,
    {
        let ghost r0 = r@;
        r.push(packages[i].clone());
        proof {
            assert(r@ =~= r0.push(packages@[i as int]));
            assert(str_views(r@) =~= str_views(r0).push(packages@[i as int]@));
            assert(str_views(packages@).take(i + 1) =~= str_views(packages@).take(i as int).push(
                packages@[i as int]@,
            ));
        }
        i = i + 1;
        assert(str_views(r@) =~= seq!["apt-get"@, "install"@, "-y"@] + str_views(packages@).take(i as int));
    }
    assert(str_views(packages@).take(packages.len() as int) =~= str_views(packages@));
    r
}

/// The shell command that installs `packages` in a terminal window.
pub fn install_command(packages: &Vec<String>) -> (r: String)
    ensures
        r@ == install_command_spec(str_views(packages@)),
{
    let mut r = "sudo apt update && sudo apt install -y ".to_owned();
    let list = join_strings(packages, " ");
    append_str(&mut r, list.as_str());
    append_str(&mut r, "; echo; echo 'Kurulum bitti, bu pencereyi kapatabilirsin.'; exec bash");
    r
}

/// How to open a terminal running `cmd`: the first terminal found, with
/// the arguments it takes; `None` when no supported terminal is there.
pub fn terminal_launch(terminals: &Terminals, cmd: &str) -> (r: Option<(String, Vec<String>)>)
    ensures
        match r {
            Some((prog, args)) => terminal_launch_spec(*terminals, cmd@) == Some((prog@, str_views(args@))),
            None => terminal_launch_spec(*terminals, cmd@) is None,
        },
{
    let t = *terminals;
    if t.gnome_terminal {
        let args = vec!["--".to_owned(), "bash".to_owned(), "-c".to_owned(), cmd.to_owned()];
        assert(str_views(args@) =~= seq!["--"@, "bash"@, "-c"@, cmd@]);
        Some(("gnome-terminal".to_owned(), args))
    } else if t.konsole {
        let args = vec!["-e".to_owned(), "bash".to_owned(), "-c".to_owned(), cmd.to_owned()];
        assert(str_views(args@) =~= seq!["-e"@, "bash"@, "-c"@, cmd@]);
        Some(("konsole".to_owned(), args))
    } else if t.xfce4_terminal {
        let mut inner = "bash -c \"".to_owned();
        append_str(&mut inner, cmd);
        append_str(&mut inner, "\"");
        let args = vec!["-e".to_owned(), inner];
        assert(str_views(args@) =~= seq!["-e"@, "bash -c \""@ + cmd@ + "\""@]);
        Some(("xfce4-terminal".to_owned(), args))
    } else if t.xterm {
        let args = vec!["-e".to_owned(), "bash".to_owned(), "-c".to_owned(), cmd.to_owned()];
        assert(str_views(args@) =~= seq!["-e"@, "bash"@, "-c"@, cmd@]);
        Some(("xterm".to_owned(), args))
    } else {
        None
    }
}

/// The answer when no supported terminal is found: the command to run by
/// hand.
pub fn no_terminal_error(packages: &Vec<String>) -> (r: String)
    ensures
        r@ == "Desteklenen bir terminal bulunamadı. Elle çalıştır: sudo apt install -y "@ + join(
            str_views(packages@),
            " "@,
        ),
{
    let mut r = "Desteklenen bir terminal bulunamadı. Elle çalıştır: sudo apt install -y ".to_owned();
    let list = join_strings(packages, " ");
    append_str(&mut r, list.as_str());
    r
}

} // verus!
