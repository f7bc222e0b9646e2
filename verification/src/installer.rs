//! Portable installation of the tools the application relies on, without
//! `sudo`: which release file to download for this machine, the archive
//! commands, the voice model's files, and what is reported.
use crate::text::{append_str, contains_seq, spec_lowercase, str_contains, str_ends_with, str_views, to_lowercase};
use vstd::prelude::*;

verus! {

/// Where a tool was installed, and whether it was already running.
pub struct InstallResult {
    pub installed_path: String,
    pub already_running: bool,
}

// ---------------------------------------------------------------------
// Specifications
// ---------------------------------------------------------------------

/// Whether `s` ends with `p`.
pub open spec fn ends_with(s: Seq<char>, p: Seq<char>) -> bool {
    p.len() <= s.len() && s.skip(s.len() - p.len()) == p
}

/// The video2x release file for this machine: an x86-64 AppImage.
pub open spec fn is_video2x_asset(name: Seq<char>) -> bool {
    contains_seq(spec_lowercase(name), "x86_64"@) && ends_with(spec_lowercase(name), ".appimage"@)
}

/// The piper release file for this machine: Linux on x86-64.
pub open spec fn is_piper_asset(name: Seq<char>) -> bool {
    contains_seq(spec_lowercase(name), "linux"@) && contains_seq(spec_lowercase(name), "x86_64"@)
}

/// Position of the first asset whose name `pick` accepts, or -1.
pub open spec fn first_asset(assets: Seq<(Seq<char>, Seq<char>)>, pick: spec_fn(Seq<char>) -> bool) -> int
    decreases assets.len(),
{
    if assets.len() == 0 {
        -1
    } else if pick(assets[0].0) {
        0
    } else {
        let r = first_asset(assets.drop_first(), pick);
        if r < 0 {
            -1
        } else {
            r + 1
        }
    }
}

pub open spec fn video2x_pick() -> spec_fn(Seq<char>) -> bool {
    |n: Seq<char>| is_video2x_asset(n)
}

pub open spec fn piper_pick() -> spec_fn(Seq<char>) -> bool {
    |n: Seq<char>| is_piper_asset(n)
}

/// Release assets as plain values: `(name, download URL)`.
pub open spec fn asset_views(v: Seq<(String, String)>) -> Seq<(Seq<char>, Seq<char>)> {
    v.map_values(|a: (String, String)| (a.0@, a.1@))
}

/// The download URL of the asset `pick` chooses, or `err`.
pub open spec fn chosen_url(
    assets: Seq<(Seq<char>, Seq<char>)>,
    pick: spec_fn(Seq<char>) -> bool,
    err: Seq<char>,
) -> Result<Seq<char>, Seq<char>> {
    let k = first_asset(assets, pick);
    if k < 0 {
        Err(err)
    } else {
        Ok(assets[k].1)
    }
}

pub open spec fn no_video2x_asset() -> &'static str {
    "Uygun bir Linux AppImage dosyası bulunamadı (proje dosya isimlerini değiştirmiş olabilir, github.com/k4yt3x/video2x/releases sayfasından elle indirebilirsin)."
}

pub open spec fn no_piper_asset() -> &'static str {
    "Uygun bir Linux (x86_64) paketi bulunamadı — github.com/rhasspy/piper/releases sayfasından elle indirebilirsin."
}

pub open spec fn ollama_unpack_failed() -> &'static str {
    "Ollama arşivi açılamadı. Muhtemel neden: sistemde 'zstd' paketi eksik (çözüm: terminalde 'sudo apt install zstd' çalıştır) ya da Ollama sıkıştırma formatını tekrar değiştirmiş olabilir. Elle kurulum: ollama.com/download"
}

pub open spec fn voice_base() -> &'static str {
    "https://huggingface.co/rhasspy/piper-voices/resolve/main/tr/tr_TR/dfki/medium"
}

// ---------------------------------------------------------------------
// Choosing the release file
// ---------------------------------------------------------------------

/// Whether a name ends with `.appimage` once lower-cased, and holds
/// `x86_64`.
fn video2x_name_ok(name: &str) -> (r: bool)
    ensures
        r == is_video2x_asset(name@),
{
    let low = to_lowercase(name);
    let a = str_contains(low.as_str(), "x86_64");
    let b = str_ends_with(low.as_str(), ".appimage");
    proof {
        let p = ".appimage"@;
        if p.len() <= low@.len() {
            assert(low@.skip(low@.len() - p.len()) =~= low@.subrange(low@.len() - p.len(), low@.len() as int));
        }
    }
    a && b
}

/// Whether a name, lower-cased, holds `linux` and `x86_64`.
fn piper_name_ok(name: &str) -> (r: bool)
    ensures
        r == is_piper_asset(name@),
{
    let low = to_lowercase(name);
    str_contains(low.as_str(), "linux") && str_contains(low.as_str(), "x86_64")
}

/// The download URL of the first release asset that is an x86-64 Linux
/// AppImage of video2x.
pub fn video2x_asset_url(assets: &Vec<(String, String)>) -> (r: Result<String, String>)
    ensures
        match chosen_url(asset_views(assets@), video2x_pick(), no_video2x_asset()@) {
            Ok(u) => r is Ok && r->Ok_0@ == u,
            Err(e) => r is Err && r->Err_0@ == e,
        },
{
    let ghost av = asset_views(assets@);
    let mut i: usize = 0;
    assert(av.skip(0) =~= av);
    while i < assets.len()
        invariant
            i <= assets@.len(),
            av == asset_views(assets@),
            first_asset(av, video2x_pick()) == (if first_asset(av.skip(i as int), video2x_pick()) < 0 {
                -1
            } else {
                first_asset(av.skip(i as int), video2x_pick()) + i
            }),
        decreases assets.len() - i,
    {
        proof {
            let t = av.skip(i as int);
            assert(t[0] == av[i as int]);
            assert(t.drop_first() =~= av.skip(i + 1));
        }
        if video2x_name_ok(assets[i].0.as_str()) {
            return Ok(assets[i].1.clone());
        }
        i = i + 1;
    }
    Err(
        "Uygun bir Linux AppImage dosyası bulunamadı (proje dosya isimlerini değiştirmiş olabilir, github.com/k4yt3x/video2x/releases sayfasından elle indirebilirsin).".to_owned(),
    )
}

/// The download URL of the first release asset that is piper for x86-64
/// Linux.
pub fn piper_asset_url(assets: &Vec<(String, String)>) -> (r: Result<String, String>)
    ensures
        match chosen_url(asset_views(assets@), piper_pick(), no_piper_asset()@) {
            Ok(u) => r is Ok && r->Ok_0@ == u,
            Err(e) => r is Err && r->Err_0@ == e,
        },
{
    let ghost av = asset_views(assets@);
    let mut i: usize = 0;
    assert(av.skip(0) =~= av);
    while i < assets.len()
        invariant
            i <= assets@.len(),
            av == asset_views(assets@),
            first_asset(av, piper_pick()) == (if first_asset(av.skip(i as int), piper_pick()) < 0 {
                -1
            } else {
                first_asset(av.skip(i as int), piper_pick()) + i
            }),
        decreases assets.len() - i,
    {
        proof {
            let t = av.skip(i as int);
            assert(t[0] == av[i as int]);
            assert(t.drop_first() =~= av.skip(i + 1));
        }
        if piper_name_ok(assets[i].0.as_str()) {
            return Ok(assets[i].1.clone());
        }
        i = i + 1;
    }
    Err("Uygun bir Linux (x86_64) paketi bulunamadı — github.com/rhasspy/piper/releases sayfasından elle indirebilirsin.".to_owned())
}

// ---------------------------------------------------------------------
// Archives and results
// ---------------------------------------------------------------------

/// The arguments of `tar` that unpack the engine's zstd archive into
/// `bin_dir`.
pub fn ollama_unpack_args(archive: &str, bin_dir: &str) -> (r: Vec<String>)
    ensures
        str_views(r@) == seq!["--zstd"@, "-xf"@, archive@, "-C"@, bin_dir@],
{
    let r = vec!["--zstd".to_owned(), "-xf".to_owned(), archive.to_owned(), "-C".to_owned(), bin_dir.to_owned()];
    assert(str_views(r@) =~= seq!["--zstd"@, "-xf"@, archive@, "-C"@, bin_dir@]);
    r
}

/// The arguments of `tar` that unpack piper's gzip archive into `bin_dir`.
pub fn piper_unpack_args(bin_dir: &str, archive: &str) -> (r: Vec<String>)
    ensures
        str_views(r@) == seq!["-C"@, bin_dir@, "-xzf"@, archive@],
{
    let r = vec!["-C".to_owned(), bin_dir.to_owned(), "-xzf".to_owned(), archive.to_owned()];
    assert(str_views(r@) =~= seq!["-C"@, bin_dir@, "-xzf"@, archive@]);
    r
}

fn ollama_unpack_failed_text() -> (s: &'static str)
    ensures
        s@ == ollama_unpack_failed()@,
{
    "Ollama arşivi açılamadı. Muhtemel neden: sistemde 'zstd' paketi eksik (çözüm: terminalde 'sudo apt install zstd' çalıştır) ya da Ollama sıkıştırma formatını tekrar değiştirmiş olabilir. Elle kurulum: ollama.com/download"
}

/// Whether an unpacked archive gave the expected binary: `tar` succeeded
/// and the binary exists; otherwise the error for that tool.
pub fn unpack_outcome(is_piper: bool, tar_succeeded: bool, binary_exists: bool) -> (r: Result<(), String>)
    ensures
        (tar_succeeded && binary_exists) ==> r is Ok,
        !(tar_succeeded && binary_exists) ==> r is Err && r->Err_0@ == (if is_piper {
            "Piper arşivi açılamadı ya da beklenen dosya yapısı farklı — elle kurulum gerekebilir."@
        } else {
            ollama_unpack_failed()@
        }),
{
    if tar_succeeded && binary_exists {
        Ok(())
    } else if is_piper {
        Err("Piper arşivi açılamadı ya da beklenen dosya yapısı farklı — elle kurulum gerekebilir.".to_owned())
    } else {
        Err(ollama_unpack_failed_text().to_owned())
    }
}

/// What an installation reports.
pub fn install_result(installed_path: String, already_running: bool) -> (r: InstallResult)
    ensures
        r.installed_path@ == installed_path@,
        r.already_running == already_running,
{
    InstallResult { installed_path, already_running }
}

/// The Turkish voice model's files: the download URL of each, with the
/// file name it is saved under (model first, then its configuration).
pub fn voice_files() -> (r: Vec<(String, String)>)
    ensures
        r@.len() == 2,
        r@[0].0@ == voice_base()@ + "/"@ + "tr_TR-dfki-medium.onnx"@,
        r@[0].1@ == "tr_TR-dfki-medium.onnx"@,
        r@[1].0@ == voice_base()@ + "/"@ + "tr_TR-dfki-medium.onnx.json"@,
        r@[1].1@ == "tr_TR-dfki-medium.onnx.json"@,
{
    let base = "https://huggingface.co/rhasspy/piper-voices/resolve/main/tr/tr_TR/dfki/medium";
    let mut a = base.to_owned();
    append_str(&mut a, "/");
    append_str(&mut a, "tr_TR-dfki-medium.onnx");
    let mut b = base.to_owned();
    append_str(&mut b, "/");
    append_str(&mut b, "tr_TR-dfki-medium.onnx.json");
    vec![(a, "tr_TR-dfki-medium.onnx".to_owned()), (b, "tr_TR-dfki-medium.onnx.json".to_owned())]
}

} // verus!
