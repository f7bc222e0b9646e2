//! The local engine and the machine: the context window asked for a
//! conversation (from the UTF-8 size of its messages), the installed models
//! the engine lists, and the GPU found by `nvidia-smi` or `lspci`.
use crate::chat::{context_window, context_window_for, ChatMessage};
use crate::json::{model_names, spec_json_valid, spec_model_names};
use crate::text::{append_str, contains_seq, lines, lines_str, parse_u64, parse_unsigned, spec_lowercase, split_chars, split_on, str_contains, string_of, to_chars, to_lowercase, trim, trim_chars, trim_str, views};
use vstd::prelude::*;

verus! {

/// The GPU of this machine, as far as it could be found.
pub struct GpuInfo {
    pub vendor: String,
    pub model: String,
    pub total_vram_mb: u64,
    pub free_vram_mb: u64,
    /// Where the information came from.
    pub source: String,
}

// ---------------------------------------------------------------------
// Specifications
// ---------------------------------------------------------------------

/// Bytes of `c` in UTF-8 (`char::len_utf8`).
pub open spec fn char_utf8_len(c: char) -> nat {
    let x = c as u32;
    if x < 0x80 {
        1
    } else if x < 0x800 {
        2
    } else if x < 0x10000 {
        3
    } else {
        4
    }
}

/// Bytes of `s` in UTF-8 (`str::len`).
pub open spec fn utf8_len(s: Seq<char>) -> nat
    decreases s.len(),
{
    if s.len() == 0 {
        0
    } else {
        utf8_len(s.drop_last()) + char_utf8_len(s.last())
    }
}

/// The UTF-8 size of all message contents.
pub open spec fn contents_len(ms: Seq<ChatMessage>) -> nat
    decreases ms.len(),
{
    if ms.len() == 0 {
        0
    } else {
        contents_len(ms.drop_last()) + utf8_len(ms.last().content@)
    }
}

/// The names among the listed models, in order; entries without a name
/// are skipped.
pub open spec fn named(v: Seq<Option<Seq<char>>>) -> Seq<Seq<char>>
    decreases v.len(),
{
    if v.len() == 0 {
        Seq::empty()
    } else {
        let r = named(v.drop_last());
        match v.last() {
            Some(n) => r.push(n),
            None => r,
        }
    }
}

/// A GPU as plain values.
pub open spec fn gpu_view(g: GpuInfo) -> (Seq<char>, Seq<char>, nat, nat, Seq<char>) {
    (g.vendor@, g.model@, g.total_vram_mb as nat, g.free_vram_mb as nat, g.source@)
}

/// A number printed by `nvidia-smi`, 0 when it does not parse.
pub open spec fn mb_or_zero(s: Seq<char>) -> nat {
    match parse_unsigned(s, u64::MAX as nat) {
        Some(n) => n,
        None => 0,
    }
}

/// What `nvidia-smi --query-gpu=name,memory.total,memory.free
/// --format=csv,noheader,nounits` printed, when it is three
/// comma-separated fields.
pub open spec fn nvidia_gpu(text: Seq<char>) -> Option<(Seq<char>, Seq<char>, nat, nat, Seq<char>)> {
    let parts = split_on(trim(text), ',');
    if parts.len() == 3 {
        Some(("NVIDIA"@, trim(parts[0]), mb_or_zero(trim(parts[1])), mb_or_zero(trim(parts[2])), "nvidia-smi"@))
    } else {
        None
    }
}

/// The first line of `lspci`'s output that mentions `vga` (in any case).
pub open spec fn vga_line(ls: Seq<Seq<char>>) -> Option<Seq<char>>
    decreases ls.len(),
{
    if ls.len() == 0 {
        None
    } else if contains_seq(spec_lowercase(ls[0]), "vga"@) {
        Some(ls[0])
    } else {
        vga_line(ls.drop_first())
    }
}

pub open spec fn lspci_source() -> &'static str {
    "lspci (VRAM tespiti yok, sürücüye bağlı)"
}

/// The GPU found: from `nvidia-smi` when it succeeded and printed three
/// fields, else from the first `vga` line of `lspci`, else unknown.
pub open spec fn gpu_info_spec(nvidia: Option<Seq<char>>, lspci: Option<Seq<char>>) -> (
    Seq<char>,
    Seq<char>,
    nat,
    nat,
    Seq<char>,
) {
    let from_nvidia = match nvidia {
        Some(t) => nvidia_gpu(t),
        None => None,
    };
    let from_lspci = match lspci {
        Some(t) => vga_line(lines(t)),
        None => None,
    };
    match from_nvidia {
        Some(g) => g,
        None => match from_lspci {
            Some(l) => ("Generic"@, l, 0, 0, lspci_source()@),
            None => ("Bilinmiyor"@, "Tespit edilemedi"@, 0, 0, "none"@),
        },
    }
}

// ---------------------------------------------------------------------
// Context window
// ---------------------------------------------------------------------

/// Bytes of `c` in UTF-8.
fn char_len(c: char) -> (r: usize)
    ensures
        r == char_utf8_len(c),
{
    let x = c as u32;
    if x < 0x80 {
        1
    } else if x < 0x800 {
        2
    } else if x < 0x10000 {
        3
    } else {
        4
    }
}

proof fn lemma_utf8_len_prefix(s: Seq<char>, k: int)
    requires
        0 <= k <= s.len(),
    ensures
        utf8_len(s.take(k)) <= utf8_len(s),
    decreases s.len(),
{
    if k < s.len() {
        assert(s.drop_last().take(k) =~= s.take(k));
        lemma_utf8_len_prefix(s.drop_last(), k);
    } else {
        assert(s.take(k) =~= s);
    }
}

proof fn lemma_contents_len_prefix(ms: Seq<ChatMessage>, k: int)
    requires
        0 <= k <= ms.len(),
    ensures
        contents_len(ms.take(k)) <= contents_len(ms),
    decreases ms.len(),
{
    if k < ms.len() {
        assert(ms.drop_last().take(k) =~= ms.take(k));
        lemma_contents_len_prefix(ms.drop_last(), k);
    } else {
        assert(ms.take(k) =~= ms);
    }
}

/// The UTF-8 size of a text.
pub fn text_len(s: &str) -> (r: usize)
    requires
        utf8_len(s@) <= usize::MAX,
    ensures
        r == utf8_len(s@),
{
    let v = to_chars(s);
    let mut n: usize = 0;
    let mut i: usize = 0;
    while i < v.len()
        invariant
            i <= v.len(),
            v@ == s@,
            utf8_len(s@) <= usize::MAX,
            n == utf8_len(v@.take(i as int)),
        decreases v.len() - i,
    {
        proof {
            assert(v@.take(i + 1).drop_last() =~= v@.take(i as int));
            lemma_utf8_len_prefix(v@, i + 1);
        }
        n = n + char_len(v[i]);
        i = i + 1;
    }
    assert(v@.take(i as int) =~= v@);
    n
}

/// The context window asked of the local engine for a conversation: from
/// the UTF-8 size of all message contents.
pub fn conversation_window(messages: &Vec<ChatMessage>) -> (r: u32)
    requires
        contents_len(messages@) <= usize::MAX,
        ((contents_len(messages@) / 3) as u32) + 512 <= u32::MAX,
    ensures
        r == context_window_for(contents_len(messages@)),
{
    let mut total: usize = 0;
    let mut i: usize = 0;
    while i < messages.len()
        invariant
            i <= messages.len(),
            contents_len(messages@) <= usize::MAX,
            total == contents_len(messages@.take(i as int)),
        decreases messages.len() - i,
    {
        proof {
            assert(messages@.take(i + 1).drop_last() =~= messages@.take(i as int));
            assert(messages@.take(i + 1).last() == messages@[i as int]);
            lemma_contents_len_prefix(messages@, i + 1);
        }
        let n = text_len(messages[i].content.as_str());
        total = total + n;
        i = i + 1;
    }
    assert(messages@.take(i as int) =~= messages@);
    context_window(total)
}

// ---------------------------------------------------------------------
// Installed models
// ---------------------------------------------------------------------

/// The installed models in the engine's model list: the named entries of
/// `models`, in order (none when the list is missing); a body that is not
/// JSON is refused with the parser's message.
pub fn installed_models(body: &str) -> (r: Result<Vec<String>, String>)
    ensures
        !spec_json_valid(body@) ==> r is Err && r->Err_0@ == "Model listesi çözümlenemedi: "@ + crate::json::body_decode_message(),
        spec_json_valid(body@) ==> r is Ok && crate::text::str_views(r->Ok_0@) == match spec_model_names(body@) {
            Some(v) => named(v),
            None => Seq::empty(),
        },
{
    match model_names(body) {
        Err(_) => {
            let mut m = "Model listesi çözümlenemedi: ".to_owned();
            let t = crate::json::body_decode_error();
            append_str(&mut m, t.as_str());
            Err(m)
        },
        Ok(None) => {
            let r: Vec<String> = Vec::new();
            assert(crate::text::str_views(r@) =~= Seq::<Seq<char>>::empty());
            Ok(r)
        },
        Ok(Some(v)) => {
            let ghost vv = crate::json::opt_strs(v@);
            let mut out: Vec<String> = Vec::new();
            let mut i: usize = 0;
            while i < v.len()
                invariant
                    i <= v@.len(),
                    vv == crate::json::opt_strs(v@),
                    crate::text::str_views(out@) == named(vv.take(i as int)),
                decreases v.len() - i,
            {
                proof {
                    assert(vv.take(i + 1).drop_last() =~= vv.take(i as int));
                    assert(vv.take(i + 1).last() == crate::json::opt_str(v@[i as int]));
                }
                let ghost o0 = out@;
                match &v[i] {
                    Some(n) => {
                        out.push(n.clone());
                        proof {
                            assert(crate::text::str_views(out@) =~= crate::text::str_views(o0).push(n@));
                        }
                    },
                    None => {},
                }
                i = i + 1;
            }
            assert(vv.take(i as int) =~= vv);
            Ok(out)
        },
    }
}

/// How many models the engine lists (0 when the list cannot be read).
pub fn listed_model_count(body: &str) -> (r: usize)
    ensures
        spec_json_valid(body@) && spec_model_names(body@) is Some ==> r == spec_model_names(body@)->Some_0.len(),
        !(spec_json_valid(body@) && spec_model_names(body@) is Some) ==> r == 0,
{
    match model_names(body) {
        Ok(Some(v)) => {
            proof {
                assert(crate::json::opt_strs(v@).len() == v@.len());
            }
            v.len()
        },
        _ => 0,
    }
}

// ---------------------------------------------------------------------
// GPU
// ---------------------------------------------------------------------

/// The GPU `nvidia-smi` printed, if its output has three fields.
fn gpu_from_nvidia(text: &str) -> (r: Option<GpuInfo>)
    ensures
        match r {
            Some(g) => nvidia_gpu(text@) == Some(gpu_view(g)),
            None => nvidia_gpu(text@) is None,
        },
{
    let t = trim_chars(&to_chars(text));
    let tv = to_chars(t.as_str());
    let parts = split_chars(&tv, ',');
    if parts.len() != 3 {
        return None;
    }
    proof {
        assert(views(parts@)[0] == parts@[0]@);
        assert(views(parts@)[1] == parts@[1]@);
        assert(views(parts@)[2] == parts@[2]@);
    }
    let model = trim_chars(&parts[0]);
    let total_s = trim_chars(&parts[1]);
    let free_s = trim_chars(&parts[2]);
    let total = match parse_u64(total_s.as_str()) {
        Some(n) => n,
        None => 0,
    };
    let free = match parse_u64(free_s.as_str()) {
        Some(n) => n,
        None => 0,
    };
    Some(
        GpuInfo {
            vendor: "NVIDIA".to_owned(),
            model,
            total_vram_mb: total,
            free_vram_mb: free,
            source: "nvidia-smi".to_owned(),
        },
    )
}

/// The first line of `lspci`'s output mentioning `vga`.
fn first_vga_line(text: &str) -> (r: Option<String>)
    ensures
        match r {
            Some(l) => vga_line(lines(text@)) == Some(l@),
            None => vga_line(lines(text@)) is None,
        },
{
    let ls = lines_str(text);
    let ghost all = views(ls@);
    let mut i: usize = 0;
    assert(all.skip(0) =~= all);
    while i < ls.len()
        invariant
            i <= ls@.len(),
            all == views(ls@),
            all == lines(text@),
            vga_line(all) == vga_line(all.skip(i as int)),
        decreases ls.len() - i,
    {
        let line = string_of(&ls[i]);
        let low = to_lowercase(line.as_str());
        proof {
            let t = all.skip(i as int);
            assert(t[0] == ls@[i as int]@);
            assert(t.drop_first() =~= all.skip(i + 1));
        }
        if str_contains(low.as_str(), "vga") {
            return Some(line);
        }
        i = i + 1;
    }
    None
}

fn lspci_source_text() -> (s: &'static str)
    ensures
        s@ == lspci_source()@,
{
    "lspci (VRAM tespiti yok, sürücüye bağlı)"
}

/// The GPU of this machine from what `nvidia-smi` printed (when it
/// succeeded) and what `lspci` printed (when it ran).
pub fn gpu_info(nvidia: Option<&str>, lspci: Option<&str>) -> (r: GpuInfo)
    ensures
        gpu_view(r) == gpu_info_spec(
            match nvidia {
                Some(t) => Some(t@),
                None => None,
            },
            match lspci {
                Some(t) => Some(t@),
                None => None,
            },
        ),
{
    if let Some(t) = nvidia {
        if let Some(g) = gpu_from_nvidia(t) {
            return g;
        }
    }
    if let Some(t) = lspci {
        if let Some(l) = first_vga_line(t) {
            return GpuInfo {
                vendor: "Generic".to_owned(),
                model: l,
                total_vram_mb: 0,
                free_vram_mb: 0,
                source: lspci_source_text().to_owned(),
            };
        }
    }
    GpuInfo {
        vendor: "Bilinmiyor".to_owned(),
        model: "Tespit edilemedi".to_owned(),
        total_vram_mb: 0,
        free_vram_mb: 0,
        source: "none".to_owned(),
    }
}

/// The error when the engine cannot be reached for a chat.
pub fn unreachable_engine_error(detail: &str) -> (r: String)
    ensures
        r@ == "Ollama'ya ulaşılamadı. Terminalde 'ollama serve' çalıştığından emin olun. Detay: "@ + detail@,
{
    let mut r = "Ollama'ya ulaşılamadı. Terminalde 'ollama serve' çalıştığından emin olun. Detay: ".to_owned();
    append_str(&mut r, detail);
    r
}

} // verus!
