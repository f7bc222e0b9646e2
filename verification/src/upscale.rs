//! Video upscaling with video2x: the memory check before a heavy run, the
//! command line for an upscale and for a frame-rate increase, where the
//! binary is taken from, the GPU list video2x prints, and what the user is
//! told while it runs.
use crate::subtitles::{available_memory_mb, mem_available};
use crate::text::{append_str, char_is, decimal, find_first, lemma_find_first_at, lemma_find_first_none, lines, lines_str, parse_unsigned, parse_unsigned_range, push_decimal, str_views, string_of_range, trim, trim_range, to_chars, u64_to_string, views};
use vstd::prelude::*;

verus! {

/// A GPU as video2x lists it.
pub struct GpuOption {
    pub index: u32,
    pub name: String,
}

/// The file an upscale produced.
pub struct UpscaleResult {
    pub output_path: String,
}

/// What the user is told while an upscale runs, and when it ends.
pub struct UpscaleProgress {
    pub status: String,
    pub elapsed_secs: u64,
    pub done: bool,
}

// ---------------------------------------------------------------------
// Specifications
// ---------------------------------------------------------------------

/// The refusal shown when memory is short before an upscale.
pub open spec fn upscale_low_memory_message(mb: nat) -> Seq<char> {
    "Boş bellek kritik derecede az ("@ + decimal(mb) + upscale_low_memory_tail()@
}

pub open spec fn upscale_low_memory_tail() -> &'static str {
    " MB). video2x bu durumda çalışırsa sistemin kilitlenmesine yol açabilir. Lütfen önce diğer ağır uygulamaları kapatıp tekrar dene."
}

/// The GPU a line of `video2x --list-gpus` names (`0. NVIDIA RTX A6000`):
/// the number before the first `.` (white space around it allowed) and the
/// trimmed text after it.
pub open spec fn gpu_of_line(l: Seq<char>) -> Option<(nat, Seq<char>)> {
    let k = find_first(l, char_is('.'));
    if k < 0 {
        None
    } else {
        match parse_unsigned(trim(l.take(k)), u32::MAX as nat) {
            Some(i) => Some((i, trim(l.skip(k + 1)))),
            None => None,
        }
    }
}

/// The GPUs of the lines, in order; lines that name none are skipped.
pub open spec fn gpus_of(ls: Seq<Seq<char>>) -> Seq<(nat, Seq<char>)>
    decreases ls.len(),
{
    if ls.len() == 0 {
        Seq::empty()
    } else {
        let r = gpus_of(ls.drop_last());
        match gpu_of_line(ls.last()) {
            Some(g) => r.push(g),
            None => r,
        }
    }
}

/// A GPU as plain values.
pub open spec fn gpu_view(g: GpuOption) -> (nat, Seq<char>) {
    (g.index as nat, g.name@)
}

pub open spec fn gpu_views(v: Seq<GpuOption>) -> Seq<(nat, Seq<char>)> {
    v.map_values(|g: GpuOption| gpu_view(g))
}

/// The arguments of an upscale with realesrgan: input, output, scale,
/// model, and the GPU when one is chosen.
pub open spec fn upscale_arg_list(
    video: Seq<char>,
    output: Seq<char>,
    scale: u32,
    model: Seq<char>,
    gpu: Option<u32>,
) -> Seq<Seq<char>> {
    let base = seq![
        "-i"@,
        video,
        "-o"@,
        output,
        "-p"@,
        "realesrgan"@,
        "-s"@,
        decimal(scale as nat),
        "--realesrgan-model"@,
        model,
    ];
    match gpu {
        Some(g) => base + seq!["-g"@, decimal(g as nat)],
        None => base,
    }
}

/// The arguments of a frame-rate increase with RIFE.
pub open spec fn interpolate_arg_list(video: Seq<char>, output: Seq<char>, fps: u32) -> Seq<Seq<char>> {
    seq!["-i"@, video, "-o"@, output, "-p"@, "rife"@, "--rife-fps"@, decimal(fps as nat)]
}

/// Where video2x is taken from: the path `which` printed (trimmed) when it
/// succeeded with a non-empty path, else the portable copy when it exists.
pub open spec fn video2x_choice(which: Option<Seq<char>>, portable: Option<Seq<char>>) -> Result<
    Seq<char>,
    Seq<char>,
> {
    let found = match which {
        Some(w) => trim(w),
        None => Seq::empty(),
    };
    if found.len() > 0 {
        Ok(found)
    } else {
        match portable {
            Some(p) => Ok(p),
            None => Err(video2x_missing()@),
        }
    }
}

pub open spec fn video2x_missing() -> &'static str {
    "video2x bulunamadı. 'Video2X'i Otomatik Kur' butonunu kullanın ya da elle kurun: github.com/k4yt3x/video2x"
}

pub open spec fn upscale_failed() -> &'static str {
    "video2x işlemi başarısız oldu. Olası nedenler: Vulkan destekli GPU bulunamadı, ya da video formatı desteklenmiyor. Terminalde 'video2x --list-gpus' ile GPU tespitini kontrol edebilirsiniz."
}

pub open spec fn heartbeat_tail() -> &'static str {
    " saniye geçti — bu işlem videonun kendisinden çok daha uzun sürebilir, bu normal)"
}

// ---------------------------------------------------------------------
// Memory check
// ---------------------------------------------------------------------

fn upscale_low_memory_tail_text() -> (s: &'static str)
    ensures
        s@ == upscale_low_memory_tail()@,
{
    " MB). video2x bu durumda çalışırsa sistemin kilitlenmesine yol açabilir. Lütfen önce diğer ağır uygulamaları kapatıp tekrar dene."
}

/// Refuses to start an upscale when `/proc/meminfo` (if it could be read)
/// reports less than 2048 MiB available.
pub fn check_memory_or_warn(meminfo: Option<&str>) -> (r: Result<(), String>)
    ensures
        match meminfo {
            Some(text) => match mem_available(lines(text@)) {
                Some(mb) => if mb < 2048 {
                    r is Err && r->Err_0@ == upscale_low_memory_message(mb)
                } else {
                    r is Ok
                },
                None => r is Ok,
            },
            None => r is Ok,
        },
{
    if let Some(text) = meminfo {
        if let Some(available) = available_memory_mb(text) {
            if available < 2048 {
                let mut msg = "Boş bellek kritik derecede az (".to_owned();
                push_decimal(&mut msg, available);
                append_str(&mut msg, upscale_low_memory_tail_text());
                return Err(msg);
            }
        }
    }
    Ok(())
}

// ---------------------------------------------------------------------
// Command lines
// ---------------------------------------------------------------------

/// The file an upscale of `video` writes: `{video}.upscaled.mp4`.
pub fn upscale_output_path(video: &str) -> (r: String)
    ensures
        r@ == video@ + ".upscaled.mp4"@,
{
    let mut r = video.to_owned();
    append_str(&mut r, ".upscaled.mp4");
    r
}

/// The file a frame-rate increase of `video` writes: `{video}.smooth.mp4`.
pub fn interpolate_output_path(video: &str) -> (r: String)
    ensures
        r@ == video@ + ".smooth.mp4"@,
{
    let mut r = video.to_owned();
    append_str(&mut r, ".smooth.mp4");
    r
}

/// The arguments of an upscale.
pub fn upscale_args(video: &str, output: &str, scale: u32, model: &str, gpu_index: Option<u32>) -> (r: Vec<
    String,
>)
    ensures
        str_views(r@) == upscale_arg_list(video@, output@, scale, model@, gpu_index),
{
    let mut r: Vec<String> = vec![
        "-i".to_owned(),
        video.to_owned(),
        "-o".to_owned(),
        output.to_owned(),
        "-p".to_owned(),
        "realesrgan".to_owned(),
        "-s".to_owned(),
        u64_to_string(scale as u64),
        "--realesrgan-model".to_owned(),
        model.to_owned(),
    ];
    let ghost base = str_views(r@);
    assert(base =~= upscale_arg_list(video@, output@, scale, model@, None));
    if let Some(g) = gpu_index {
        r.push("-g".to_owned());
        r.push(u64_to_string(g as u64));
        assert(str_views(r@) =~= base + seq!["-g"@, decimal(g as nat)]);
    }
    r
}

/// The arguments of a frame-rate increase.
pub fn interpolate_args(video: &str, output: &str, target_fps: u32) -> (r: Vec<String>)
    ensures
        str_views(r@) == interpolate_arg_list(video@, output@, target_fps),
{
    let r: Vec<String> = vec![
        "-i".to_owned(),
        video.to_owned(),
        "-o".to_owned(),
        output.to_owned(),
        "-p".to_owned(),
        "rife".to_owned(),
        "--rife-fps".to_owned(),
        u64_to_string(target_fps as u64),
    ];
    assert(str_views(r@) =~= interpolate_arg_list(video@, output@, target_fps));
    r
}

/// The arguments of `nice` that run `program` at low priority: the
/// arguments of the program follow.
pub fn nice_prefix(program: &str) -> (r: Vec<String>)
    ensures
        str_views(r@) == seq!["-n"@, "15"@, program@],
{
    let r: Vec<String> = vec!["-n".to_owned(), "15".to_owned(), program.to_owned()];
    assert(str_views(r@) =~= seq!["-n"@, "15"@, program@]);
    r
}

fn video2x_missing_text() -> (s: &'static str)
    ensures
        s@ == video2x_missing()@,
{
    "video2x bulunamadı. 'Video2X'i Otomatik Kur' butonunu kullanın ya da elle kurun: github.com/k4yt3x/video2x"
}

/// Which video2x to run: `which` is what `which video2x` printed when it
/// succeeded, `portable` the portable copy's path when it exists.
pub fn choose_video2x(which: Option<&str>, portable: Option<String>) -> (r: Result<String, String>)
    ensures
        match video2x_choice(
            match which {
                Some(w) => Some(w@),
                None => None,
            },
            crate::json::opt_str(portable),
        ) {
            Ok(p) => r is Ok && r->Ok_0@ == p,
            Err(e) => r is Err && r->Err_0@ == e,
        },
{
    if let Some(w) = which {
        let v = to_chars(w);
        let (a, b) = trim_range(&v, 0, v.len());
        proof {
            assert(v@.subrange(0, v.len() as int) =~= w@);
        }
        if a < b {
            return Ok(string_of_range(&v, a, b));
        }
    }
    match portable {
        Some(p) => Ok(p),
        None => Err(video2x_missing_text().to_owned()),
    }
}

// ---------------------------------------------------------------------
// GPU list
// ---------------------------------------------------------------------

/// The GPU named by one line, if any.
fn gpu_of(line: &Vec<char>) -> (r: Option<GpuOption>)
    ensures
        match r {
            Some(g) => gpu_of_line(line@) == Some(gpu_view(g)),
            None => gpu_of_line(line@) is None,
        },
{
    let mut k: usize = 0;
    while k < line.len()
        invariant
            k <= line.len(),
            forall|j: int| 0 <= j < k ==> !char_is('.')(#[trigger] line@[j]),
        decreases line.len() - k,
    {
        if line[k] == '.' {
            proof {
                lemma_find_first_at(line@, char_is('.'), k as int);
            }
            let (a, b) = trim_range(line, 0, k);
            proof {
                assert(line@.subrange(0, k as int) =~= line@.take(k as int));
            }
            let idx = parse_unsigned_range(line, a, b, u32::MAX as u64);
            match idx {
                Some(i) => {
                    let (c, d) = trim_range(line, k + 1, line.len());
                    proof {
                        assert(line@.subrange(k + 1, line.len() as int) =~= line@.skip(k + 1));
                    }
                    let name = string_of_range(line, c, d);
                    return Some(GpuOption { index: i as u32, name });
                },
                None => {
                    return None;
                },
            }
        }
        k = k + 1;
    }
    proof {
        lemma_find_first_none(line@, char_is('.'));
    }
    None
}

/// The GPUs in the output of `video2x --list-gpus`, in order.
pub fn parse_gpu_list(text: &str) -> (r: Vec<GpuOption>)
    ensures
        gpu_views(r@) == gpus_of(lines(text@)),
{
    let ls = lines_str(text);
    let mut out: Vec<GpuOption> = Vec::new();
    let mut i: usize = 0;
    while i < ls.len()
        invariant
            i <= ls.len(),
            views(ls@) == lines(text@),
            gpu_views(out@) == gpus_of(views(ls@).take(i as int)),
        decreases ls.len() - i,
    {
        let ghost t = views(ls@).take(i + 1);
        proof {
            assert(t.drop_last() =~= views(ls@).take(i as int));
            assert(t.last() == ls@[i as int]@);
        }
        let ghost before = out@;
        match gpu_of(&ls[i]) {
            Some(g) => {
                out.push(g);
                proof {
                    assert(gpu_views(out@) =~= gpu_views(before).push(gpu_view(out@.last())));
                }
            },
            None => {},
        }
        i = i + 1;
    }
    proof {
        assert(views(ls@).take(ls.len() as int) =~= views(ls@));
    }
    out
}

// ---------------------------------------------------------------------
// Progress and results
// ---------------------------------------------------------------------

fn heartbeat_tail_text() -> (s: &'static str)
    ensures
        s@ == heartbeat_tail()@,
{
    " saniye geçti — bu işlem videonun kendisinden çok daha uzun sürebilir, bu normal)"
}

/// The periodic "still working" message, `elapsed_secs` into the run.
pub fn heartbeat(elapsed_secs: u64) -> (r: UpscaleProgress)
    ensures
        r.status@ == "İşleniyor… ("@ + decimal(elapsed_secs as nat) + heartbeat_tail()@,
        r.elapsed_secs == elapsed_secs,
        !r.done,
{
    let mut status = "İşleniyor… (".to_owned();
    push_decimal(&mut status, elapsed_secs);
    append_str(&mut status, heartbeat_tail_text());
    UpscaleProgress { status, elapsed_secs, done: false }
}

/// The message sent when video2x has ended.
pub fn finished(elapsed_secs: u64) -> (r: UpscaleProgress)
    ensures
        r.status@ == "tamamlandı"@,
        r.elapsed_secs == elapsed_secs,
        r.done,
{
    UpscaleProgress { status: "tamamlandı".to_owned(), elapsed_secs, done: true }
}

fn upscale_failed_text() -> (s: &'static str)
    ensures
        s@ == upscale_failed()@,
{
    "video2x işlemi başarısız oldu. Olası nedenler: Vulkan destekli GPU bulunamadı, ya da video formatı desteklenmiyor. Terminalde 'video2x --list-gpus' ile GPU tespitini kontrol edebilirsiniz."
}

/// The outcome of an upscale from video2x's exit status.
pub fn upscale_outcome(succeeded: bool, output_path: String) -> (r: Result<UpscaleResult, String>)
    ensures
        succeeded ==> r is Ok && r->Ok_0.output_path@ == output_path@,
        !succeeded ==> r is Err && r->Err_0@ == upscale_failed()@,
{
    if succeeded {
        Ok(UpscaleResult { output_path })
    } else {
        Err(upscale_failed_text().to_owned())
    }
}

/// The outcome of a frame-rate increase from video2x's exit status.
pub fn interpolate_outcome(succeeded: bool, output_path: String) -> (r: Result<UpscaleResult, String>)
    ensures
        succeeded ==> r is Ok && r->Ok_0.output_path@ == output_path@,
        !succeeded ==> r is Err && r->Err_0@ == "Kare hızı artırma işlemi başarısız oldu."@,
{
    if succeeded {
        Ok(UpscaleResult { output_path })
    } else {
        Err("Kare hızı artırma işlemi başarısız oldu.".to_owned())
    }
}

/// The memory note of an upscale: `'{video}' videosunu {scale}x büyüttü
/// ({model})`.
pub fn upscale_note(video: &str, scale: u32, model: &str) -> (r: String)
    ensures
        r@ == "'"@ + video@ + "' videosunu "@ + decimal(scale as nat) + "x büyüttü ("@ + model@ + ")"@,
{
    let mut r = "'".to_owned();
    append_str(&mut r, video);
    append_str(&mut r, "' videosunu ");
    push_decimal(&mut r, scale as u64);
    append_str(&mut r, "x büyüttü (");
    append_str(&mut r, model);
    append_str(&mut r, ")");
    r
}

} // verus!
