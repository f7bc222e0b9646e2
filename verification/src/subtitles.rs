//! Subtitle files: SRT and WebVTT output for transcribed segments, reading the
//! text back out of an SRT file, the names of the files written next to a
//! video, and the free-memory guard run before the heavy pipeline starts.
use crate::json::{items_view, json_error_text, spec_json_valid, spec_whisper_items, whisper_items};
use crate::text::{bare_file_name, last_index};
use crate::text::{
    all_digits, append_str, decimal, is_blank, is_digit, is_whitespace, is_ws, join, lemma_decimal_digits, lemma_split_on_nonempty, append_chars, str_views, find_first,
    lemma_find_first_at, lemma_find_first_none, lemma_split_str_nonempty, split_on, strip_cr,
    lines, lines_of, lines_str, occurs_at, occurs_at_exec, opt_nat, parse_unsigned,
    parse_unsigned_range, push_char, push_decimal, push_padded, split_str, split_str_chars,
    string_of_range, to_chars, trim, trim_range, trim_start, trim_start_index, views, zero_pad,
};
use vstd::prelude::*;

verus! {

/// One transcribed stretch of speech, in milliseconds from the start.
pub struct SubtitleSegment {
    pub start_ms: u64,
    pub end_ms: u64,
    pub source_text: String,
    pub translated_text: Option<String>,
}

/// The files produced for one video.
pub struct SubtitleResult {
    pub srt_path: String,
    pub vtt_path: String,
    pub segment_count: usize,
}

/// A progress report of the subtitle pipeline.
pub struct SubtitleProgress {
    pub status: String,
    pub current: u32,
    pub total: u32,
    pub done: bool,
}

/// The text part of one block read back from an SRT file.
pub struct SrtSeg {
    pub text: String,
}

// ---------------------------------------------------------------------
// Specifications
// ---------------------------------------------------------------------

/// `HH:MM:SS<sep>mmm`, each field zero-padded (hours to at least two digits).
pub open spec fn clock(ms: nat, sep: char) -> Seq<char> {
    let h = ms / 3_600_000;
    let m = (ms % 3_600_000) / 60_000;
    let s = (ms % 60_000) / 1000;
    let f = ms % 1000;
    zero_pad(decimal(h), 2) + seq![':'] + zero_pad(decimal(m), 2) + seq![':'] + zero_pad(
        decimal(s),
        2,
    ) + seq![sep] + zero_pad(decimal(f), 3)
}

/// SRT time stamp: `HH:MM:SS,mmm`.
pub open spec fn srt_time(ms: nat) -> Seq<char> {
    clock(ms, ',')
}

/// Every `a` replaced by `b` (`str::replace` with one-character patterns).
pub open spec fn replace_char(s: Seq<char>, a: char, b: char) -> Seq<char> {
    s.map_values(|c: char| if c == a { b } else { c })
}

/// The text a segment shows: its translation if it has one.
pub open spec fn shown_text(seg: SubtitleSegment) -> Seq<char> {
    match seg.translated_text {
        Some(t) => t@,
        None => seg.source_text@,
    }
}

/// The arrow between the two time stamps of a cue.
pub open spec fn arrow() -> Seq<char> {
    seq![' ', '-', '-', '>', ' ']
}

/// The time line of a cue, with the given time-stamp format.
pub open spec fn cue_times(seg: SubtitleSegment, sep: char) -> Seq<char> {
    clock(seg.start_ms as nat, sep) + arrow() + clock(seg.end_ms as nat, sep)
}

/// One cue without its closing blank line: number, times, text.
pub open spec fn cue_body(n: nat, seg: SubtitleSegment, sep: char) -> Seq<char> {
    decimal(n) + seq!['\n'] + cue_times(seg, sep) + seq!['\n'] + shown_text(seg)
}

/// The cues numbered from `first` on, each followed by a blank line.
pub open spec fn cues(segs: Seq<SubtitleSegment>, first: nat, sep: char) -> Seq<char>
    decreases segs.len(),
{
    if segs.len() == 0 {
        Seq::empty()
    } else {
        cue_body(first, segs[0], sep) + seq!['\n', '\n'] + cues(segs.drop_first(), first + 1, sep)
    }
}

/// An SRT document of the segments, numbered from 1.
pub open spec fn srt_document(segs: Seq<SubtitleSegment>) -> Seq<char> {
    cues(segs, 1, ',')
}

/// The header every WebVTT document starts with.
pub open spec fn vtt_header() -> Seq<char> {
    seq!['W', 'E', 'B', 'V', 'T', 'T', '\n', '\n']
}

/// A WebVTT document of the segments, numbered from 1.
pub open spec fn vtt_document(segs: Seq<SubtitleSegment>) -> Seq<char> {
    vtt_header() + cues(segs, 1, '.')
}

/// The text of one SRT block, if it has one: the lines from the third on,
/// joined with spaces and trimmed; blocks with fewer than three lines or
/// only blank text have none.
pub open spec fn srt_block_text(block: Seq<char>) -> Option<Seq<char>> {
    let ls = lines(block);
    if ls.len() >= 3 && !is_blank(join(ls.skip(2), seq![' '])) {
        Some(trim(join(ls.skip(2), seq![' '])))
    } else {
        None
    }
}

/// The texts of a run of SRT blocks, in order.
pub open spec fn srt_texts(blocks: Seq<Seq<char>>) -> Seq<Seq<char>>
    decreases blocks.len(),
{
    if blocks.len() == 0 {
        Seq::empty()
    } else {
        let rest = srt_texts(blocks.drop_last());
        match srt_block_text(blocks.last()) {
            Some(t) => rest.push(t),
            None => rest,
        }
    }
}

/// What `parse_srt` reads from an SRT document: the blocks are the pieces
/// between blank lines (`"\n\n"`).
pub open spec fn srt_parse(content: Seq<char>) -> Seq<Seq<char>> {
    srt_texts(split_str(content, seq!['\n', '\n']))
}

/// The texts held by the parsed segments.
pub open spec fn srt_seg_texts(v: Seq<SrtSeg>) -> Seq<Seq<char>> {
    v.map_values(|x: SrtSeg| x.text@)
}

/// Result of `Path::file_stem` (then `to_str`) on a path.
pub uninterp spec fn spec_file_stem(p: Seq<char>) -> Option<Seq<char>>;

/// Result of `Path::parent` (then `to_str`) on a path.
pub uninterp spec fn spec_parent(p: Seq<char>) -> Option<Seq<char>>;

/// The path next to `video`: its directory and stem, then `suffix`.
pub open spec fn sibling(video: Seq<char>, suffix: Seq<char>) -> Seq<char> {
    let stem = match spec_file_stem(video) {
        Some(s) => s,
        None => video,
    };
    let parent = match spec_parent(video) {
        Some(p) => p,
        None => Seq::empty(),
    };
    if parent.len() == 0 {
        stem + suffix
    } else {
        parent + seq!['/'] + stem + suffix
    }
}

/// Whether the line starts with `MemAvailable:`.
pub open spec fn is_mem_available_line(l: Seq<char>) -> bool {
    occurs_at(l, mem_available_key(), 0)
}

/// The key of the available-memory line of `/proc/meminfo`.
pub open spec fn mem_available_key() -> Seq<char> {
    seq!['M', 'e', 'm', 'A', 'v', 'a', 'i', 'l', 'a', 'b', 'l', 'e', ':']
}

/// The first white-space separated word of `s`, if any
/// (`str::split_whitespace().next()`).
pub open spec fn first_word(s: Seq<char>) -> Option<Seq<char>> {
    let t = trim_start(s);
    if t.len() == 0 {
        None
    } else {
        Some(t.take(word_end(t)))
    }
}

/// Length of the leading run of non-white-space characters.
pub open spec fn word_end(t: Seq<char>) -> int
    decreases t.len(),
{
    if t.len() == 0 || is_ws(t[0]) {
        0
    } else {
        1 + word_end(t.drop_first())
    }
}

/// Available memory in MiB from the value (in KiB) of a `MemAvailable:` line.
pub open spec fn mem_line_value(l: Seq<char>) -> Option<nat> {
    match first_word(trim(l.skip(13))) {
        Some(w) => match parse_unsigned(w, u64::MAX as nat) {
            Some(kb) => Some(kb / 1024),
            None => None,
        },
        None => None,
    }
}

/// What `available_memory_mb` reads from the text of `/proc/meminfo`: the
/// first `MemAvailable:` line decides.
pub open spec fn mem_available(ls: Seq<Seq<char>>) -> Option<nat>
    decreases ls.len(),
{
    if ls.len() == 0 {
        None
    } else if is_mem_available_line(ls[0]) {
        mem_line_value(ls[0])
    } else {
        mem_available(ls.drop_first())
    }
}

/// Below this much available memory the pipeline refuses to start.
pub open spec fn min_safe_memory_mb() -> nat {
    2048
}

/// The refusal shown when memory is short.
pub open spec fn low_memory_message(mb: nat) -> Seq<char> {
    "Boş bellek kritik derecede az ("@ + decimal(mb) + low_memory_tail()@
}

/// The fixed text after the number in the low-memory refusal.
pub open spec fn low_memory_tail() -> &'static str {
    " MB). Bu işlem (whisper.cpp + Ollama birlikte) bu durumda çalışırsa sistemin tamamen kilitlenmesine/oturumun kapanmasına yol açabilir. Lütfen önce diğer ağır uygulamaları (tarayıcı, AutoCAD vb.) kapatıp tekrar dene."
}

// ---------------------------------------------------------------------
// Executable functions
// ---------------------------------------------------------------------

/// Appends `HH:MM:SS<sep>mmm`.
fn push_clock(s: &mut String, ms: u64, sep: char)
    ensures
        final(s)@ == old(s)@ + clock(ms as nat, sep),
{
    let h = ms / 3_600_000;
    let m = (ms % 3_600_000) / 60_000;
    let sec = (ms % 60_000) / 1000;
    let f = ms % 1000;
    let ghost s0 = s@;
    push_padded(s, h, 2);
    push_char(s, ':');
    push_padded(s, m, 2);
    push_char(s, ':');
    push_padded(s, sec, 2);
    push_char(s, sep);
    push_padded(s, f, 3);
    assert(s@ =~= s0 + clock(ms as nat, sep));
}

/// SRT time stamp of `ms`: `HH:MM:SS,mmm`.
pub fn ms_to_srt_time(ms: u64) -> (r: String)
    ensures
        r@ == srt_time(ms as nat),
{
    let mut s = String::new();
    push_clock(&mut s, ms, ',');
    s
}

/// WebVTT time stamp of `ms`: the SRT one with a dot for the comma.
pub fn ms_to_vtt_time(ms: u64) -> (r: String)
    ensures
        r@ == replace_char(srt_time(ms as nat), ',', '.'),
{
    let mut s = String::new();
    push_clock(&mut s, ms, '.');
    proof {
        lemma_clock_replace(ms as nat);
    }
    s
}

/// Appends the cue for `seg` with number `n` and its closing blank line.
#[verifier::rlimit(40)]
fn push_cue(s: &mut String, n: u64, seg: &SubtitleSegment, sep: char)
    ensures
        final(s)@ == old(s)@ + cue_body(n as nat, *seg, sep) + seq!['\n', '\n'],
{
    let ghost s0 = s@;
    push_decimal(s, n);
    push_char(s, '\n');
    push_clock(s, seg.start_ms, sep);
    push_char(s, ' ');
    push_char(s, '-');
    push_char(s, '-');
    push_char(s, '>');
    push_char(s, ' ');
    push_clock(s, seg.end_ms, sep);
    push_char(s, '\n');
    match &seg.translated_text {
        Some(t) => append_str(s, t.as_str()),
        None => append_str(s, seg.source_text.as_str()),
    }
    push_char(s, '\n');
    push_char(s, '\n');
    assert(s@ =~= s0 + cue_body(n as nat, *seg, sep) + seq!['\n', '\n']);
}

/// Appends the numbered cues of all segments.
fn push_cues(s: &mut String, segments: &[SubtitleSegment], sep: char)
    requires
        segments@.len() < u64::MAX,
    ensures
        final(s)@ == old(s)@ + cues(segments@, 1, sep),
{
    let ghost s0 = s@;
    let mut i: usize = 0;
    proof {
        assert(segments@.skip(0) =~= segments@);
    }
    while i < segments.len()
        invariant
            i <= segments@.len() < u64::MAX,
            s0 + cues(segments@, 1, sep) == s@ + cues(segments@.skip(i as int), (i + 1) as nat, sep),
        decreases segments.len() - i,
    {
        proof {
            assert(segments@.skip(i as int).drop_first() =~= segments@.skip(i + 1));
        }
        push_cue(s, (i + 1) as u64, &segments[i], sep);
        i = i + 1;
    }
    proof {
        assert(segments@.skip(i as int) =~= Seq::<SubtitleSegment>::empty());
    }
}

/// The SRT document of the segments, numbered from 1.
pub fn segments_to_srt(segments: &[SubtitleSegment]) -> (r: String)
    requires
        segments@.len() < u64::MAX,
    ensures
        r@ == srt_document(segments@),
{
    let mut s = String::new();
    push_cues(&mut s, segments, ',');
    s
}

/// The WebVTT document of the segments (what a browser `<track>` reads).
pub fn segments_to_vtt(segments: &[SubtitleSegment]) -> (r: String)
    requires
        segments@.len() < u64::MAX,
    ensures
        r@ == vtt_document(segments@),
{
    let mut s = String::new();
    push_char(&mut s, 'W');
    push_char(&mut s, 'E');
    push_char(&mut s, 'B');
    push_char(&mut s, 'V');
    push_char(&mut s, 'T');
    push_char(&mut s, 'T');
    push_char(&mut s, '\n');
    push_char(&mut s, '\n');
    push_cues(&mut s, segments, '.');
    s
}

/// `Path::file_stem` of a path given as text. As std documents it, the
/// stem of a bare file name is the part before its last `.`, or the whole
/// name when the only `.` starts it or there is none.
#[verifier::external_body]
fn path_file_stem(p: &str) -> (r: Option<String>)
    ensures
        match r {
            Some(s) => spec_file_stem(p@) == Some(s@),
            None => spec_file_stem(p@) is None,
        },
        bare_file_name(p@) ==> r is Some && r->Some_0@ == (if last_index(p@, '.') > 0 {
            p@.take(last_index(p@, '.'))
        } else {
            p@
        }),
{
    std::path::Path::new(p).file_stem().and_then(|s| s.to_str()).map(|s| s.to_string())
}

/// `Path::parent` of a path given as text. As std documents it, the parent
/// of a bare file name is the empty path.
#[verifier::external_body]
pub(crate) fn path_parent(p: &str) -> (r: Option<String>)
    ensures
        match r {
            Some(s) => spec_parent(p@) == Some(s@),
            None => spec_parent(p@) is None,
        },
        bare_file_name(p@) ==> r is Some && r->Some_0@.len() == 0,
{
    std::path::Path::new(p).parent().and_then(|s| s.to_str()).map(|s| s.to_string())
}

/// The path next to the video with its extension replaced by `new_suffix`
/// (`film.mp4` gives `film.tr.srt` for `.tr.srt`).
pub fn sibling_path(video_path: &str, new_suffix: &str) -> (r: String)
    ensures
        r@ == sibling(video_path@, new_suffix@),
        bare_file_name(video_path@) ==> r@ == (if last_index(video_path@, '.') > 0 {
            video_path@.take(last_index(video_path@, '.'))
        } else {
            video_path@
        }) + new_suffix@,
{
    let stem = match path_file_stem(video_path) {
        Some(s) => s,
        None => video_path.to_owned(),
    };
    let parent = match path_parent(video_path) {
        Some(p) => p,
        None => String::new(),
    };
    let pv = to_chars(parent.as_str());
    let mut out = String::new();
    if pv.len() == 0 {
        append_str(&mut out, stem.as_str());
        append_str(&mut out, new_suffix);
    } else {
        append_str(&mut out, parent.as_str());
        push_char(&mut out, '/');
        append_str(&mut out, stem.as_str());
        append_str(&mut out, new_suffix);
    }
    out
}

/// The text of one block, if it has one (see `srt_block_text`).
fn block_text(block: &Vec<char>) -> (r: Option<String>)
    ensures
        match r {
            Some(t) => srt_block_text(block@) == Some(t@),
            None => srt_block_text(block@) is None,
        },
{
    let ls = lines_of(block);
    if ls.len() < 3 {
        return None;
    }
    let mut joined: Vec<char> = Vec::new();
    let mut i: usize = 2;
    proof {
        assert(views(ls@).skip(2).take(1) =~= seq![views(ls@)[2]]);
        assert(joined@ =~= Seq::<char>::empty());
    }
    while i < ls.len()
        invariant
            2 <= i <= ls.len(),
            views(ls@) == lines(block@),
            joined@ == (if i == 2 {
                Seq::<char>::empty()
            } else {
                join(views(ls@).skip(2).take(i - 2), seq![' '])
            }),
        decreases ls.len() - i,
    {
        let ghost old_j = joined@;
        if i > 2 {
            joined.push(' ');
        }
        let piece = &ls[i];
        let mut k: usize = 0;
        let ghost base = joined@;
        while k < piece.len()
            invariant
                k <= piece.len(),
                joined@ == base + piece@.take(k as int),
            decreases piece.len() - k,
        {
            joined.push(piece[k]);
            k = k + 1;
            assert(joined@ =~= base + piece@.take(k as int));
        }
        proof {
            let parts = views(ls@).skip(2).take(i - 1);
            assert(parts.drop_last() =~= views(ls@).skip(2).take(i - 2));
            assert(parts.last() == piece@);
            assert(piece@.take(piece@.len() as int) =~= piece@);
            if i == 2 {
                assert(parts =~= seq![piece@]);
                assert(joined@ =~= join(parts, seq![' ']));
            } else {
                assert(joined@ =~= join(parts, seq![' ']));
            }
        }
        i = i + 1;
    }
    proof {
        assert(views(ls@).skip(2).take(ls.len() - 2) =~= views(ls@).skip(2));
    }
    let (a, b) = trim_range(&joined, 0, joined.len());
    proof {
        assert(joined@.subrange(0, joined@.len() as int) =~= joined@);
    }
    if a == b {
        return None;
    }
    Some(string_of_range(&joined, a, b))
}

/// Reads the cue texts back from an SRT document: blocks are separated by a
/// blank line, the text is every line after the number and the times,
/// joined with spaces and trimmed; blocks without text are skipped.
pub fn parse_srt(content: &str) -> (out: Vec<SrtSeg>)
    ensures
        srt_seg_texts(out@) == srt_parse(content@),
{
    let v = to_chars(content);
    let sep: Vec<char> = vec!['\n', '\n'];
    let blocks = split_str_chars(&v, &sep);
    let mut out: Vec<SrtSeg> = Vec::new();
    let mut i: usize = 0;
    proof {
        assert(sep@ =~= seq!['\n', '\n']);
        assert(views(blocks@).take(0) =~= Seq::<Seq<char>>::empty());
    }
    while i < blocks.len()
        invariant
            i <= blocks.len(),
            views(blocks@) == split_str(v@, seq!['\n', '\n']),
            srt_seg_texts(out@) == srt_texts(views(blocks@).take(i as int)),
        decreases blocks.len() - i,
    {
        let t = block_text(&blocks[i]);
        proof {
            let bs = views(blocks@).take(i + 1);
            assert(bs.drop_last() =~= views(blocks@).take(i as int));
            assert(bs.last() == blocks@[i as int]@);
        }
        match t {
            Some(text) => {
                let ghost old_out = out@;
                out.push(SrtSeg { text });
                proof {
                    assert(srt_seg_texts(out@) =~= srt_seg_texts(old_out).push(out@.last().text@));
                }
            },
            None => {},
        }
        i = i + 1;
    }
    proof {
        assert(views(blocks@).take(blocks.len() as int) =~= views(blocks@));
    }
    out
}

/// Available memory in MiB read from the text of `/proc/meminfo`.
pub fn available_memory_mb(meminfo: &str) -> (r: Option<u64>)
    ensures
        opt_nat(r) == mem_available(lines(meminfo@)),
{
    let ls = lines_str(meminfo);
    let key: Vec<char> = vec!['M', 'e', 'm', 'A', 'v', 'a', 'i', 'l', 'a', 'b', 'l', 'e', ':'];
    proof {
        assert(key@ =~= mem_available_key());
    }
    let mut i: usize = 0;
    proof {
        assert(views(ls@).skip(0) =~= views(ls@));
    }
    while i < ls.len()
        invariant
            i <= ls.len(),
            key@ == mem_available_key(),
            views(ls@) == lines(meminfo@),
            mem_available(views(ls@)) == mem_available(views(ls@).skip(i as int)),
        decreases ls.len() - i,
    {
        proof {
            assert(views(ls@).skip(i as int).drop_first() =~= views(ls@).skip(i + 1));
            assert(views(ls@).skip(i as int)[0] == ls@[i as int]@);
        }
        if occurs_at_exec(&ls[i], &key, 0) {
            proof {
                let rest = views(ls@).skip(i as int);
                assert(is_mem_available_line(rest[0]));
                assert(mem_available(rest) == mem_line_value(rest[0]));
            }
            return line_value(&ls[i]);
        }
        i = i + 1;
    }
    proof {
        assert(views(ls@).skip(i as int) =~= Seq::<Seq<char>>::empty());
    }
    None
}

/// The value of a `MemAvailable:` line, in MiB.
fn line_value(l: &Vec<char>) -> (r: Option<u64>)
    requires
        l.len() >= 13,
    ensures
        opt_nat(r) == mem_line_value(l@),
{
    let (a, b) = trim_range(l, 13, l.len());
    proof {
        assert(l@.subrange(13, l.len() as int) =~= l@.skip(13));
    }
    let ghost t = l@.subrange(a as int, b as int);
    let ws = trim_start_index(l, a, b);
    proof {
        assert(l@.subrange(a as int, b as int) == t);
    }
    if ws == b {
        return None;
    }
    let mut we = ws;
    let ghost u = l@.subrange(ws as int, b as int);
    proof {
        assert(u.skip(0) =~= u);
    }
    while we < b && !is_whitespace(l[we])
        invariant
            ws <= we <= b <= l.len(),
            u == l@.subrange(ws as int, b as int),
            word_end(u) == (we - ws) + word_end(u.skip(we - ws)),
        decreases b - we,
    {
        proof {
            assert(u.skip(we - ws).drop_first() =~= u.skip(we - ws + 1));
        }
        we = we + 1;
    }
    proof {
        assert(word_end(u.skip(we - ws)) == 0);
        assert(u.take(word_end(u)) =~= l@.subrange(ws as int, we as int));
    }
    match parse_unsigned_range(l, ws, we, u64::MAX) {
        Some(kb) => Some(kb / 1024),
        None => None,
    }
}

/// Refuses to start the subtitle pipeline when `/proc/meminfo` (if it could
/// be read) reports less than 2048 MiB available.
pub fn check_memory_or_warn(meminfo: Option<&str>) -> (r: Result<(), String>)
    ensures
        match meminfo {
            Some(text) => match mem_available(lines(text@)) {
                Some(mb) => if mb < min_safe_memory_mb() {
                    r is Err && r->Err_0@ == low_memory_message(mb)
                } else {
                    r is Ok
                },
                None => r is Ok,
            },
            None => r is Ok,
        },
{
    if let Some(text) = meminfo {
        if let Some(available) = available_memory_mb(text) {
            if available < 2048 {
                let mut msg = String::new();
                append_str(&mut msg, "Boş bellek kritik derecede az (");
                push_decimal(&mut msg, available);
                append_str(&mut msg, low_memory_tail_text());
                return Err(msg);
            }
        }
    }
    Ok(())
}

/// The fixed text after the number in the low-memory refusal.
fn low_memory_tail_text() -> (s: &'static str)
    ensures
        s@ == low_memory_tail()@,
{
    " MB). Bu işlem (whisper.cpp + Ollama birlikte) bu durumda çalışırsa sistemin tamamen kilitlenmesine/oturumun kapanmasına yol açabilir. Lütfen önce diğer ağır uygulamaları (tarayıcı, AutoCAD vb.) kapatıp tekrar dene."
}

// ---------------------------------------------------------------------
// Transcription
// ---------------------------------------------------------------------

/// A segment as plain values: start, end, source text, translation.
pub open spec fn seg_view(s: SubtitleSegment) -> (nat, nat, Seq<char>, Option<Seq<char>>) {
    (s.start_ms as nat, s.end_ms as nat, s.source_text@, crate::json::opt_str(s.translated_text))
}

/// Segments as plain values.
pub open spec fn seg_views(v: Seq<SubtitleSegment>) -> Seq<(nat, nat, Seq<char>, Option<Seq<char>>)> {
    v.map_values(|s: SubtitleSegment| seg_view(s))
}

/// The segments whisper's entries give: missing times count as 0, the text
/// is trimmed, entries without text are left out; none are translated yet.
pub open spec fn segments_of_items(items: Seq<(Option<u64>, Option<u64>, Option<Seq<char>>)>) -> Seq<
    (nat, nat, Seq<char>, Option<Seq<char>>),
>
    decreases items.len(),
{
    if items.len() == 0 {
        Seq::empty()
    } else {
        let r = segments_of_items(items.drop_last());
        let it = items.last();
        let start: nat = match it.0 {
            Some(x) => x as nat,
            None => 0,
        };
        let end: nat = match it.1 {
            Some(x) => x as nat,
            None => 0,
        };
        let text = trim(
            match it.2 {
                Some(t) => t,
                None => Seq::empty(),
            },
        );
        if text.len() == 0 {
            r
        } else {
            r.push((start, end, text, None))
        }
    }
}

/// The segments of a whisper.cpp JSON output, in the order whisper wrote
/// them; an output that is not JSON is refused with the parser's message.
pub fn whisper_segments(raw: &str) -> (r: Result<Vec<SubtitleSegment>, String>)
    ensures
        (r is Ok) == spec_json_valid(raw@),
        r is Ok ==> seg_views(r->Ok_0@) == match spec_whisper_items(raw@) {
            Some(items) => segments_of_items(items),
            None => Seq::empty(),
        },
{
    let items = match whisper_items(raw) {
        Ok(Some(v)) => v,
        Ok(None) => {
            let out: Vec<SubtitleSegment> = Vec::new();
            assert(seg_views(out@) =~= Seq::empty());
            return Ok(out);
        },
        Err(e) => return Err(json_error_text(&e)),
    };
    let mut out: Vec<SubtitleSegment> = Vec::new();
    let mut i: usize = 0;
    proof {
        assert(items_view(items@).take(0) =~= Seq::empty());
        assert(seg_views(out@) =~= Seq::empty());
    }
    while i < items.len()
        invariant
            i <= items.len(),
            seg_views(out@) == segments_of_items(items_view(items@).take(i as int)),
        decreases items.len() - i,
    {
        let it = &items[i];
        let start = match it.0 {
            Some(x) => x,
            None => 0,
        };
        let end = match it.1 {
            Some(x) => x,
            None => 0,
        };
        let text = match &it.2 {
            Some(t) => crate::text::trim_str(t.as_str()),
            None => String::new(),
        };
        proof {
            let t = items_view(items@).take(i + 1);
            assert(t.drop_last() =~= items_view(items@).take(i as int));
            assert(t.last() == crate::json::item_view(items@[i as int]));
            assert(trim(Seq::<char>::empty()) =~= Seq::<char>::empty());
        }
        let tv = to_chars(text.as_str());
        if tv.len() > 0 {
            let ghost before = seg_views(out@);
            out.push(SubtitleSegment { start_ms: start, end_ms: end, source_text: text, translated_text: None });
            proof {
                assert(seg_views(out@) =~= before.push(seg_view(out@.last())));
            }
        }
        i = i + 1;
    }
    proof {
        assert(items_view(items@).take(items.len() as int) =~= items_view(items@));
    }
    Ok(out)
}

/// `sorted` with `x` placed after the last element that does not start
/// later than it.
pub open spec fn insert_by_start(sorted: Seq<SubtitleSegment>, x: SubtitleSegment) -> Seq<SubtitleSegment>
    decreases sorted.len(),
{
    if sorted.len() == 0 {
        seq![x]
    } else if sorted.last().start_ms <= x.start_ms {
        sorted.push(x)
    } else {
        insert_by_start(sorted.drop_last(), x).push(sorted.last())
    }
}

/// The segments sorted by start time, keeping the order of equal starts
/// (`sort_by_key`, which is stable).
pub open spec fn sorted_by_start(s: Seq<SubtitleSegment>) -> Seq<SubtitleSegment>
    decreases s.len(),
{
    if s.len() == 0 {
        s
    } else {
        insert_by_start(sorted_by_start(s.drop_last()), s.last())
    }
}

/// Start times never decrease.
pub open spec fn starts_ascending(s: Seq<SubtitleSegment>) -> bool {
    forall|i: int, j: int| 0 <= i < j < s.len() ==> s[i].start_ms <= s[j].start_ms
}

/// Inserting where the scan from the end stopped.
proof fn lemma_insert_at(s: Seq<SubtitleSegment>, x: SubtitleSegment, j: int)
    requires
        0 <= j <= s.len(),
        forall|k: int| j <= k < s.len() ==> s[k].start_ms > x.start_ms,
        j == 0 || s[j - 1].start_ms <= x.start_ms,
    ensures
        insert_by_start(s, x) == s.take(j) + seq![x] + s.skip(j),
    decreases s.len() - j,
{
    if s.len() == 0 {
        assert(s.take(j) + seq![x] + s.skip(j) =~= seq![x]);
    } else if j == s.len() {
        assert(s.take(j) + seq![x] + s.skip(j) =~= s.push(x));
    } else {
        let d = s.drop_last();
        lemma_insert_at(d, x, j);
        assert(d.take(j) + seq![x] + d.skip(j) + seq![s.last()] =~= s.take(j) + seq![x] + s.skip(
            j,
        ));
    }
}

/// Sorts the segments by start time; segments starting together keep their
/// order.
pub fn sort_segments(segments: Vec<SubtitleSegment>) -> (r: Vec<SubtitleSegment>)
    ensures
        r@ == sorted_by_start(segments@),
{
    let ghost orig = segments@;
    let mut rest = segments;
    let mut out: Vec<SubtitleSegment> = Vec::new();
    let mut k: usize = 0;
    assert(orig.len() == rest.len());
    proof {
        assert(orig.take(0) =~= Seq::<SubtitleSegment>::empty());
        assert(orig.skip(0) =~= orig);
    }
    while rest.len() > 0
        invariant
            k <= orig.len(),
            orig.len() <= usize::MAX,
            rest@ == orig.skip(k as int),
            out@ == sorted_by_start(orig.take(k as int)),
        decreases rest.len(),
    {
        let x = rest.remove(0);
        proof {
            assert(x == orig[k as int]);
            assert(orig.skip(k as int).remove(0) =~= orig.skip(k + 1));
            assert(orig.take(k + 1).drop_last() =~= orig.take(k as int));
            assert(orig.take(k + 1).last() == x);
        }
        let mut j = out.len();
        while j > 0 && out[j - 1].start_ms > x.start_ms
            invariant
                j <= out.len(),
                forall|t: int| j <= t < out.len() ==> out@[t].start_ms > x.start_ms,
            decreases j,
        {
            j = j - 1;
        }
        proof {
            lemma_insert_at(out@, x, j as int);
            assert(out@.insert(j as int, x) =~= out@.take(j as int) + seq![x] + out@.skip(j as int));
        }
        out.insert(j, x);
        k = k + 1;
    }
    proof {
        assert(orig.take(k as int) =~= orig);
    }
    out
}

/// Sorting puts the start times in ascending order and keeps every segment:
/// the result holds the same segments, each as often as before.
pub proof fn lemma_sorted_by_start(s: Seq<SubtitleSegment>)
    ensures
        starts_ascending(sorted_by_start(s)),
        sorted_by_start(s).to_multiset() == s.to_multiset(),
    decreases s.len(),
{
    if s.len() > 0 {
        lemma_sorted_by_start(s.drop_last());
        lemma_insert_keeps(sorted_by_start(s.drop_last()), s.last());
        broadcast use vstd::seq_lib::group_seq_properties;
        assert(s =~= s.drop_last().push(s.last()));
    }
}

/// Inserting keeps the order and adds exactly the new segment.
proof fn lemma_insert_keeps(s: Seq<SubtitleSegment>, x: SubtitleSegment)
    requires
        starts_ascending(s),
    ensures
        starts_ascending(insert_by_start(s, x)),
        insert_by_start(s, x).to_multiset() == s.to_multiset().insert(x),
        insert_by_start(s, x).len() == s.len() + 1,
        forall|i: int|
            0 <= i < insert_by_start(s, x).len() ==> #[trigger] insert_by_start(s, x)[i] == x || s.contains(
                insert_by_start(s, x)[i],
            ),
    decreases s.len(),
{
    broadcast use vstd::seq_lib::group_seq_properties;
    if s.len() == 0 {
        assert(seq![x] =~= Seq::<SubtitleSegment>::empty().push(x));
    } else if s.last().start_ms <= x.start_ms {
    } else {
        let d = s.drop_last();
        lemma_insert_keeps(d, x);
        let r = insert_by_start(d, x);
        assert(s =~= d.push(s.last()));
        assert forall|i: int| 0 <= i < r.len() implies #[trigger] r[i].start_ms <= s.last().start_ms by {
            if r[i] == x {
            } else {
                assert(d.contains(r[i]));
                let k = choose|k: int| 0 <= k < d.len() && d[k] == r[i];
                assert(s[k] == d[k]);
            }
        }
        assert forall|i: int| 0 <= i < r.push(s.last()).len() implies #[trigger] r.push(
            s.last(),
        )[i] == x || s.contains(r.push(s.last())[i]) by {
            if i < r.len() {
                if r[i] != x {
                    assert(d.contains(r[i]));
                    let k = choose|k: int| 0 <= k < d.len() && d[k] == r[i];
                    assert(s[k] == d[k]);
                }
            } else {
                assert(s[s.len() - 1] == s.last());
            }
        }
    }
}

// ---------------------------------------------------------------------
// Speech recognition command
// ---------------------------------------------------------------------

/// The arguments of the whisper.cpp call: model, input, JSON output next to
/// the input, automatic language; with a voice-activity model, also that
/// model and `--vad`.
pub open spec fn whisper_arg_list(model: Seq<char>, wav: Seq<char>, vad: Seq<char>) -> Seq<Seq<char>> {
    let base = seq!["-m"@, model, "-f"@, wav, "-oj"@, "-of"@, wav, "-l"@, "auto"@];
    if trim(vad).len() == 0 {
        base
    } else {
        base + seq!["-vm"@, vad, "--vad"@]
    }
}

/// The whisper.cpp arguments for one audio file.
pub fn whisper_args(model_path: &str, wav_path: &str, vad_model_path: &str) -> (r: Vec<String>)
    ensures
        str_views(r@) == whisper_arg_list(model_path@, wav_path@, vad_model_path@),
{
    let mut args: Vec<String> = Vec::new();
    args.push("-m".to_owned());
    args.push(model_path.to_owned());
    args.push("-f".to_owned());
    args.push(wav_path.to_owned());
    args.push("-oj".to_owned());
    args.push("-of".to_owned());
    args.push(wav_path.to_owned());
    args.push("-l".to_owned());
    args.push("auto".to_owned());
    let vad = crate::text::trim_str(vad_model_path);
    let vv = to_chars(vad.as_str());
    if vv.len() > 0 {
        args.push("-vm".to_owned());
        args.push(vad_model_path.to_owned());
        args.push("--vad".to_owned());
    }
    proof {
        assert(str_views(args@) =~= whisper_arg_list(model_path@, wav_path@, vad_model_path@));
    }
    args
}

// ---------------------------------------------------------------------
// Translation with the local engine
// ---------------------------------------------------------------------

/// End of the batch of at most 20 segments that starts at `start`.
pub open spec fn batch_end_spec(start: nat, len: nat) -> nat {
    if start + 20 < len {
        start + 20
    } else {
        len
    }
}

/// End of the translation batch of at most 20 segments starting at `start`.
pub fn batch_end(start: usize, len: usize) -> (r: usize)
    requires
        start <= len,
    ensures
        r == batch_end_spec(start as nat, len as nat),
{
    if len - start > 20 {
        start + 20
    } else {
        len
    }
}

/// The numbered lines of a batch: `1. text`, `2. text`, ... joined with
/// line feeds.
pub open spec fn numbered_lines(segs: Seq<SubtitleSegment>, start: int, end: int) -> Seq<char> {
    join(
        Seq::new(
            (end - start) as nat,
            |i: int| decimal((i + 1) as nat) + seq!['.', ' '] + segs[start + i].source_text@,
        ),
        seq!['\n'],
    )
}

/// The instruction that opens every translation request.
pub open spec fn translate_instruction() -> &'static str {
    "Aşağıdaki numaralı satırları Türkçe'ye çevir. Her kelimeyi eksiksiz çevir, argo/küfür/+18 ifadeler dahil hiçbir şeyi sansürleme ya da yumuşatma — birebir anlam ve ton korunmalı. SADECE aynı numaralandırmayla çeviriyi döndür, başka açıklama ekleme.\n\n"
}

fn translate_instruction_text() -> (s: &'static str)
    ensures
        s@ == translate_instruction()@,
{
    "Aşağıdaki numaralı satırları Türkçe'ye çevir. Her kelimeyi eksiksiz çevir, argo/küfür/+18 ifadeler dahil hiçbir şeyi sansürleme ya da yumuşatma — birebir anlam ve ton korunmalı. SADECE aynı numaralandırmayla çeviriyi döndür, başka açıklama ekleme.\n\n"
}

/// The request asking the local engine to translate `segments[start..end]`:
/// the instruction, then the numbered source texts.
pub fn translation_prompt(segments: &Vec<SubtitleSegment>, start: usize, end: usize) -> (r: String)
    requires
        start < end <= segments.len(),
    ensures
        r@ == translate_instruction()@ + numbered_lines(segments@, start as int, end as int),
{
    let mut p = String::new();
    append_str(&mut p, translate_instruction_text());
    let ghost head = p@;
    let ghost parts = Seq::new(
        (end - start) as nat,
        |i: int| decimal((i + 1) as nat) + seq!['.', ' '] + segments@[start + i].source_text@,
    );
    let mut i = start;
    while i < end
        invariant
            start <= i <= end <= segments.len(),
            start < end,
            parts == Seq::new(
                (end - start) as nat,
                |k: int| decimal((k + 1) as nat) + seq!['.', ' '] + segments@[start + k].source_text@,
            ),
            i == start ==> p@ == head,
            i > start ==> p@ == head + join(parts.take(i - start), seq!['\n']),
        decreases end - i,
    {
        let ghost before = p@;
        if i > start {
            push_char(&mut p, '\n');
        }
        push_decimal(&mut p, (i - start + 1) as u64);
        push_char(&mut p, '.');
        push_char(&mut p, ' ');
        append_str(&mut p, segments[i].source_text.as_str());
        proof {
            let t = parts.take(i - start + 1);
            assert(t.drop_last() =~= parts.take(i - start));
            assert(t.last() == parts[i - start]);
            if i == start {
                assert(t =~= seq![parts[0]]);
                assert(p@ =~= head + join(t, seq!['\n']));
            } else {
                assert(p@ =~= head + join(t, seq!['\n']));
            }
        }
        i = i + 1;
    }
    proof {
        assert(parts.take(end - start) =~= parts);
    }
    p
}

/// Whether `c` ends the number of a numbered line.
pub open spec fn is_number_end(c: char) -> bool {
    c == '.' || c == ')'
}

/// A reply line without its number: the text after the first `.` or `)`,
/// trimmed; the whole line, trimmed, when it has neither.
pub open spec fn reply_text(line: Seq<char>) -> Seq<char> {
    let k = find_first(line, |c: char| is_number_end(c));
    if k >= 0 {
        trim(line.skip(k + 1))
    } else {
        trim(line)
    }
}

/// The segments after taking in a reply for the batch `[start, end)`: the
/// `i`-th reply line translates segment `start + i` when it leaves some text.
pub open spec fn with_translations(
    segs: Seq<(nat, nat, Seq<char>, Option<Seq<char>>)>,
    start: int,
    end: int,
    reply: Seq<Seq<char>>,
) -> Seq<(nat, nat, Seq<char>, Option<Seq<char>>)> {
    Seq::new(
        segs.len(),
        |k: int|
            if start <= k < end && k - start < reply.len() && reply_text(reply[k - start]).len() > 0 {
                (segs[k].0, segs[k].1, segs[k].2, Some(reply_text(reply[k - start])))
            } else {
                segs[k]
            },
    )
}

/// The text of one reply line without its number.
fn reply_line_text(line: &Vec<char>) -> (r: String)
    ensures
        r@ == reply_text(line@),
{
    let ghost p = |c: char| is_number_end(c);
    let mut k: usize = 0;
    while k < line.len()
        invariant
            k <= line.len(),
            p == (|c: char| is_number_end(c)),
            forall|j: int| 0 <= j < k ==> !p(#[trigger] line@[j]),
        decreases line.len() - k,
    {
        if line[k] == '.' || line[k] == ')' {
            proof {
                lemma_find_first_at(line@, p, k as int);
            }
            let (a, b) = trim_range(line, k + 1, line.len());
            proof {
                assert(line@.subrange(k + 1, line.len() as int) =~= line@.skip(k + 1));
            }
            return string_of_range(line, a, b);
        }
        k = k + 1;
    }
    proof {
        lemma_find_first_none(line@, p);
        assert(line@.subrange(0, line.len() as int) =~= line@);
    }
    let (a, b) = trim_range(line, 0, line.len());
    string_of_range(line, a, b)
}

/// Takes the local engine's reply to the batch `[start, end)` into the
/// segments: reply line `i` (its number and surrounding white space
/// removed) becomes the translation of segment `start + i`, unless nothing
/// is left of it; extra reply lines are ignored.
pub fn apply_translation_reply(segments: Vec<SubtitleSegment>, start: usize, end: usize, content: &str) -> (r:
    Vec<SubtitleSegment>)
    requires
        start <= end <= segments.len(),
    ensures
        seg_views(r@) == with_translations(seg_views(segments@), start as int, end as int, lines(content@)),
{
    let ls = lines_str(content);
    let ghost orig = seg_views(segments@);
    let ghost target = with_translations(orig, start as int, end as int, lines(content@));
    let mut rest = segments;
    let mut out: Vec<SubtitleSegment> = Vec::new();
    let mut k: usize = 0;
    let n = rest.len();
    proof {
        assert(seg_views(rest@) =~= orig.skip(0));
    }
    while k < n
        invariant
            n == orig.len(),
            k <= n,
            start <= end <= n,
            views(ls@) == lines(content@),
            seg_views(rest@) == orig.skip(k as int),
            target == with_translations(orig, start as int, end as int, lines(content@)),
            seg_views(out@) == target.take(k as int),
        decreases n - k,
    {
        let ghost rv = seg_views(rest@);
        let ghost old_rest = rest@;
        proof {
            assert(rv.len() == rest@.len());
            assert(orig.skip(k as int).len() == n - k);
            assert(rv[0] == seg_view(old_rest[0]));
            assert(rv[0] == orig[k as int]);
        }
        let seg = rest.remove(0);
        proof {
            assert(seg == old_rest[0]);
            assert(seg_view(seg) == orig[k as int]);
            assert(rest@ =~= old_rest.remove(0));
            assert forall|i: int| 0 <= i < seg_views(rest@).len() implies seg_views(rest@)[i] == orig.skip(k + 1)[i] by {
                assert(rest@[i] == old_rest[i + 1]);
                assert(rv[i + 1] == seg_view(old_rest[i + 1]));
                assert(rv[i + 1] == orig[k + 1 + i]);
            }
            assert(seg_views(rest@) =~= orig.skip(k + 1));
        }
        let ghost before = seg_views(out@);
        if start <= k && k < end && k - start < ls.len() {
            let t = reply_line_text(&ls[k - start]);
            let tv = to_chars(t.as_str());
            proof {
                assert(views(ls@)[k - start] == ls@[k - start]@);
            }
            if tv.len() > 0 {
                out.push(SubtitleSegment {
                    start_ms: seg.start_ms,
                    end_ms: seg.end_ms,
                    source_text: seg.source_text,
                    translated_text: Some(t),
                });
            } else {
                out.push(seg);
            }
        } else {
            out.push(seg);
        }
        proof {
            assert(seg_views(out@) =~= before.push(target[k as int]));
            assert(target.take(k + 1) =~= target.take(k as int).push(target[k as int]));
        }
        k = k + 1;
    }
    proof {
        assert(target.take(n as int) =~= target);
    }
    out
}

// ---------------------------------------------------------------------
// Laws
// ---------------------------------------------------------------------

/// The WebVTT time stamp is the SRT one with the comma turned into a dot.
pub proof fn lemma_clock_replace(ms: nat)
    ensures
        clock(ms, '.') == replace_char(clock(ms, ','), ',', '.'),
{
    lemma_padded_digits(ms / 3_600_000, 2);
    lemma_padded_digits((ms % 3_600_000) / 60_000, 2);
    lemma_padded_digits((ms % 60_000) / 1000, 2);
    lemma_padded_digits(ms % 1000, 3);
    assert(clock(ms, '.') =~= replace_char(clock(ms, ','), ',', '.'));
}

/// Where no displayed text holds a comma, the WebVTT document is the
/// header followed by the SRT document with every comma turned into a dot.
pub proof fn lemma_vtt_is_srt_with_dots(segs: Seq<SubtitleSegment>)
    requires
        forall|i: int| 0 <= i < segs.len() ==> !(#[trigger] shown_text(segs[i])).contains(','),
    ensures
        vtt_document(segs) == vtt_header() + replace_char(srt_document(segs), ',', '.'),
{
    lemma_cues_with_dots(segs, 1);
}

/// The cues with dots are the cues with commas, each comma turned into a
/// dot, as long as no displayed text holds a comma.
proof fn lemma_cues_with_dots(segs: Seq<SubtitleSegment>, first: nat)
    requires
        forall|i: int| 0 <= i < segs.len() ==> !(#[trigger] shown_text(segs[i])).contains(','),
    ensures
        cues(segs, first, '.') == replace_char(cues(segs, first, ','), ',', '.'),
    decreases segs.len(),
{
    if segs.len() == 0 {
        assert(replace_char(Seq::<char>::empty(), ',', '.') =~= Seq::<char>::empty());
    } else {
        let rest = segs.drop_first();
        assert forall|i: int| 0 <= i < rest.len() implies !(#[trigger] shown_text(rest[i])).contains(',') by {
            assert(rest[i] == segs[i + 1]);
        }
        lemma_cues_with_dots(rest, first + 1);
        let seg = segs[0];
        assert(!shown_text(seg).contains(','));
        lemma_decimal_digits(first);
        lemma_clock_replace(seg.start_ms as nat);
        lemma_clock_replace(seg.end_ms as nat);
        lemma_no_comma_unchanged(decimal(first));
        lemma_no_comma_unchanged(shown_text(seg));
        lemma_no_comma_unchanged(arrow());
        lemma_no_comma_unchanged(seq!['\n']);
        lemma_no_comma_unchanged(seq!['\n', '\n']);
        let t0 = clock(seg.start_ms as nat, ',');
        let t1 = clock(seg.end_ms as nat, ',');
        let times = t0 + arrow() + t1;
        let body = decimal(first) + seq!['\n'] + times + seq!['\n'] + shown_text(seg);
        let whole = body + seq!['\n', '\n'] + cues(rest, first + 1, ',');
        assert(replace_char(times, ',', '.') =~= replace_char(t0, ',', '.') + arrow() + replace_char(
            t1,
            ',',
            '.',
        ));
        assert(replace_char(body, ',', '.') =~= decimal(first) + seq!['\n'] + replace_char(times, ',', '.')
            + seq!['\n'] + shown_text(seg));
        assert(replace_char(whole, ',', '.') =~= replace_char(body, ',', '.') + seq!['\n', '\n']
            + replace_char(cues(rest, first + 1, ','), ',', '.'));
        assert(cue_body(first, seg, ',') == body);
        assert(cues(segs, first, ',') == whole);
    }
}

/// A text without commas stays as it is when commas become dots.
proof fn lemma_no_comma_unchanged(t: Seq<char>)
    requires
        !t.contains(',') || all_digits(t),
    ensures
        replace_char(t, ',', '.') == t,
{
    assert forall|i: int| 0 <= i < t.len() implies t[i] != ',' by {
        if !t.contains(',') {
            if t[i] == ',' {
                assert(t.contains(','));
            }
        } else {
            assert(is_digit(t[i]));
        }
    }
    assert(replace_char(t, ',', '.') =~= t);
}

/// A zero-padded decimal number consists of digits only.
pub proof fn lemma_padded_digits(n: nat, w: nat)
    ensures
        all_digits(zero_pad(decimal(n), w)),
        zero_pad(decimal(n), w).len() >= 1,
{
    lemma_decimal_digits(n);
    let d = decimal(n);
    let p = zero_pad(d, w);
    if d.len() < w {
        assert forall|i: int| 0 <= i < p.len() implies is_digit(#[trigger] p[i]) by {
            if i >= w - d.len() {
                assert(p[i] == d[i - (w - d.len())]);
            }
        }
    }
}

/// The fields of a time stamp recompose the time: hours, minutes below 60,
/// seconds below 60 and milliseconds below 1000 add up to `ms`.
pub proof fn lemma_clock_fields(ms: nat)
    ensures
        ({
            let h = ms / 3_600_000;
            let m = (ms % 3_600_000) / 60_000;
            let s = (ms % 60_000) / 1000;
            let f = ms % 1000;
            &&& m < 60
            &&& s < 60
            &&& f < 1000
            &&& h * 3_600_000 + m * 60_000 + s * 1000 + f == ms
        }),
{
    let h = ms / 3_600_000;
    let r = ms % 3_600_000;
    let m = r / 60_000;
    let s = (ms % 60_000) / 1000;
    let f = ms % 1000;
    assert(h * 3_600_000 + r == ms);
    assert(m * 60_000 + r % 60_000 == r);
    assert(r % 60_000 == ms % 60_000) by (nonlinear_arith)
        requires
            r == ms % 3_600_000,
    ;
    assert(s * 1000 + (ms % 60_000) % 1000 == ms % 60_000);
    assert((ms % 60_000) % 1000 == ms % 1000) by (nonlinear_arith);
}

/// A line without line breaks that `str::trim` leaves unchanged and that is
/// not empty: such a cue text survives writing and reading back unchanged.
pub open spec fn plain_line(t: Seq<char>) -> bool {
    t.len() > 0 && trim(t) == t && no_nl(t)
}

/// No line feed in `s`.
pub open spec fn no_nl(s: Seq<char>) -> bool {
    forall|i: int| 0 <= i < s.len() ==> s[i] != '\n'
}

/// The shown texts of the segments.
pub open spec fn shown_texts(segs: Seq<SubtitleSegment>) -> Seq<Seq<char>> {
    segs.map_values(|s: SubtitleSegment| shown_text(s))
}

/// Reading back an SRT document gives the texts it was written from, as long
/// as each is a single trimmed, non-empty line.
pub proof fn lemma_srt_roundtrip(segs: Seq<SubtitleSegment>)
    requires
        forall|i: int| 0 <= i < segs.len() ==> plain_line(#[trigger] shown_text(segs[i])),
    ensures
        srt_parse(srt_document(segs)) == shown_texts(segs),
{
    lemma_split_cues(segs, 1, ',');
    let bodies = Seq::new(segs.len(), |i: int| cue_body((1 + i) as nat, segs[i], ','));
    let blocks = bodies.push(Seq::<char>::empty());
    assert(split_str(srt_document(segs), seq!['\n', '\n']) == blocks);
    assert(blocks.drop_last() =~= bodies);
    assert(lines(Seq::<char>::empty()).len() == 0);
    assert(srt_block_text(blocks.last()) is None);
    assert(srt_texts(blocks) == srt_texts(bodies));
    lemma_texts_of_bodies(segs, segs.len() as int);
    assert(bodies.take(segs.len() as int) =~= bodies);
    assert(shown_texts(segs).take(segs.len() as int) =~= shown_texts(segs));
}

/// The texts of the first `k` cue bodies are the first `k` shown texts.
proof fn lemma_texts_of_bodies(segs: Seq<SubtitleSegment>, k: int)
    requires
        0 <= k <= segs.len(),
        forall|i: int| 0 <= i < segs.len() ==> plain_line(#[trigger] shown_text(segs[i])),
    ensures
        srt_texts(Seq::new(segs.len(), |i: int| cue_body((1 + i) as nat, segs[i], ',')).take(k))
            == shown_texts(segs).take(k),
    decreases k,
{
    let bodies = Seq::new(segs.len(), |i: int| cue_body((1 + i) as nat, segs[i], ','));
    if k == 0 {
        assert(bodies.take(0) =~= Seq::<Seq<char>>::empty());
        assert(shown_texts(segs).take(0) =~= Seq::<Seq<char>>::empty());
    } else {
        lemma_texts_of_bodies(segs, k - 1);
        assert(bodies.take(k).drop_last() =~= bodies.take(k - 1));
        assert(bodies.take(k).last() == cue_body(k as nat, segs[k - 1], ','));
        assert(plain_line(shown_text(segs[k - 1])));
        lemma_block_text_of_cue(k as nat, segs[k - 1], ',');
        assert(shown_texts(segs).take(k) =~= shown_texts(segs).take(k - 1).push(
            shown_text(segs[k - 1]),
        ));
    }
}

/// The text read from one cue body is the cue's shown text.
proof fn lemma_block_text_of_cue(n: nat, seg: SubtitleSegment, sep: char)
    requires
        plain_line(shown_text(seg)),
        sep == ',' || sep == '.',
    ensures
        srt_block_text(cue_body(n, seg, sep)) == Some(shown_text(seg)),
{
    let d = decimal(n);
    let t = cue_times(seg, sep);
    let x = shown_text(seg);
    lemma_decimal_no_nl(n);
    lemma_times_shape(seg, sep);
    let body = cue_body(n, seg, sep);
    assert(body == d + seq!['\n'] + t + seq!['\n'] + x);
    let y = t + seq!['\n'] + x;
    assert(body =~= d + seq!['\n'] + y);
    lemma_split_on_nl_prefix(d, y);
    lemma_split_on_nl_prefix(t, x);
    lemma_split_on_no_nl(x);
    let p = split_on(body, '\n');
    assert(p =~= seq![d, t, x]);
    assert(body.last() == x.last());
    let ls = lines(body);
    assert(strip_cr(d) == d);
    assert(strip_cr(t) == t);
    assert(ls =~= seq![d, t, x]);
    assert(ls.skip(2) =~= seq![x]);
    assert(join(ls.skip(2), seq![' ']) == x);
}

/// Splitting `x` + line feed + `y` at line feeds, where `x` has none.
proof fn lemma_split_on_nl_prefix(x: Seq<char>, y: Seq<char>)
    requires
        no_nl(x),
    ensures
        split_on(x + seq!['\n'] + y, '\n') == seq![x] + split_on(y, '\n'),
    decreases x.len(),
{
    let s = x + seq!['\n'] + y;
    lemma_split_on_nonempty(y, '\n');
    if x.len() == 0 {
        assert(x =~= Seq::<char>::empty());
        assert(s.drop_first() =~= y);
        assert(s[0] == '\n');
    } else {
        let x1 = x.drop_first();
        lemma_split_on_nl_prefix(x1, y);
        assert(s.drop_first() =~= x1 + seq!['\n'] + y);
        assert(s[0] == x[0]);
        assert(x[0] != '\n');
        let r = split_on(s.drop_first(), '\n');
        assert(r == seq![x1] + split_on(y, '\n'));
        assert(seq![s[0]] + r[0] =~= x);
        assert(r.update(0, seq![s[0]] + r[0]) =~= seq![x] + split_on(y, '\n'));
    }
}

/// A text without line feeds is a single piece.
proof fn lemma_split_on_no_nl(x: Seq<char>)
    requires
        no_nl(x),
    ensures
        split_on(x, '\n') == seq![x],
    decreases x.len(),
{
    if x.len() == 0 {
        assert(x =~= Seq::<char>::empty());
    } else {
        lemma_split_on_no_nl(x.drop_first());
        let r = split_on(x.drop_first(), '\n');
        assert(seq![x[0]] + r[0] =~= x);
        assert(r.update(0, seq![x[0]] + r[0]) =~= seq![x]);
    }
}

/// Decimal numbers hold no line feed and end with a digit.
proof fn lemma_decimal_no_nl(n: nat)
    ensures
        no_nl(decimal(n)),
        decimal(n).len() >= 1,
        is_digit(decimal(n).last()),
{
    lemma_decimal_digits(n);
    let d = decimal(n);
    assert(is_digit(d[d.len() - 1]));
}

/// A time line holds no line feed and starts and ends with a digit.
proof fn lemma_times_shape(seg: SubtitleSegment, sep: char)
    requires
        sep == ',' || sep == '.',
    ensures
        no_nl(cue_times(seg, sep)),
        cue_times(seg, sep).len() > 0,
        is_digit(cue_times(seg, sep)[0]),
        is_digit(cue_times(seg, sep).last()),
{
    lemma_clock_shape(seg.start_ms as nat, sep);
    lemma_clock_shape(seg.end_ms as nat, sep);
    let a = clock(seg.start_ms as nat, sep);
    let b = clock(seg.end_ms as nat, sep);
    let t = cue_times(seg, sep);
    assert(t == a + arrow() + b);
    assert(t[0] == a[0]);
    assert(t.last() == b.last());
}

/// A time stamp holds no line feed and starts and ends with a digit.
proof fn lemma_clock_shape(ms: nat, sep: char)
    requires
        sep == ',' || sep == '.',
    ensures
        no_nl(clock(ms, sep)),
        clock(ms, sep).len() > 0,
        is_digit(clock(ms, sep)[0]),
        is_digit(clock(ms, sep).last()),
{
    let h = zero_pad(decimal(ms / 3_600_000), 2);
    let m = zero_pad(decimal((ms % 3_600_000) / 60_000), 2);
    let s = zero_pad(decimal((ms % 60_000) / 1000), 2);
    let f = zero_pad(decimal(ms % 1000), 3);
    lemma_padded_digits(ms / 3_600_000, 2);
    lemma_padded_digits((ms % 3_600_000) / 60_000, 2);
    lemma_padded_digits((ms % 60_000) / 1000, 2);
    lemma_padded_digits(ms % 1000, 3);
    let c = clock(ms, sep);
    assert(c == h + seq![':'] + m + seq![':'] + s + seq![sep] + f);
    assert(c[0] == h[0]);
    assert(is_digit(f[f.len() - 1]));
    assert(c.last() == f.last());
    assert forall|i: int| 0 <= i < c.len() implies c[i] != '\n' by {
        if i < h.len() {
            assert(is_digit(h[i]));
        } else if i < h.len() + 1 {
        } else if i < h.len() + 1 + m.len() {
            assert(is_digit(m[i - h.len() - 1]));
        } else if i < h.len() + 2 + m.len() {
        } else if i < h.len() + 2 + m.len() + s.len() {
            assert(is_digit(s[i - h.len() - 2 - m.len()]));
        } else if i < h.len() + 3 + m.len() + s.len() {
        } else {
            assert(is_digit(f[i - h.len() - 3 - m.len() - s.len()]));
        }
    }
}

/// Splitting the cue list at blank lines gives the cue bodies and one empty
/// trailing piece.
proof fn lemma_split_cues(segs: Seq<SubtitleSegment>, first: nat, sep: char)
    requires
        forall|i: int| 0 <= i < segs.len() ==> plain_line(#[trigger] shown_text(segs[i])),
        sep == ',' || sep == '.',
    ensures
        split_str(cues(segs, first, sep), seq!['\n', '\n']) == Seq::new(
            segs.len(),
            |i: int| cue_body((first + i) as nat, segs[i], sep),
        ).push(Seq::<char>::empty()),
    decreases segs.len(),
{
    let nn = seq!['\n', '\n'];
    if segs.len() == 0 {
        assert(split_str(Seq::<char>::empty(), nn) == seq![Seq::<char>::empty()]);
        assert(Seq::new(0, |i: int| cue_body((first + i) as nat, segs[i], sep)).push(
            Seq::<char>::empty(),
        ) =~= seq![Seq::<char>::empty()]);
    } else {
        let rest = segs.drop_first();
        assert forall|i: int| 0 <= i < rest.len() implies plain_line(
            #[trigger] shown_text(rest[i]),
        ) by {
            assert(rest[i] == segs[i + 1]);
        }
        lemma_split_cues(rest, first + 1, sep);
        let b = cue_body(first, segs[0], sep);
        assert(plain_line(shown_text(segs[0])));
        lemma_cue_no_blank(first, segs[0], sep, cues(rest, first + 1, sep));
        lemma_split_sep_prefix(b, cues(rest, first + 1, sep), nn);
        assert(cues(segs, first, sep) == b + nn + cues(rest, first + 1, sep));
        assert(Seq::new(segs.len(), |i: int| cue_body((first + i) as nat, segs[i], sep)).push(
            Seq::<char>::empty(),
        ) =~= seq![b] + Seq::new(
            rest.len(),
            |i: int| cue_body((first + 1 + i) as nat, rest[i], sep),
        ).push(Seq::<char>::empty()));
    }
}

/// No blank line starts inside a cue body, nor at its end.
proof fn lemma_cue_no_blank(n: nat, seg: SubtitleSegment, sep: char, rest: Seq<char>)
    requires
        plain_line(shown_text(seg)),
        sep == ',' || sep == '.',
    ensures
        forall|i: int|
            0 <= i < cue_body(n, seg, sep).len() ==> !occurs_at(
                cue_body(n, seg, sep) + seq!['\n', '\n'] + rest,
                seq!['\n', '\n'],
                i,
            ),
{
    let d = decimal(n);
    let t = cue_times(seg, sep);
    let x = shown_text(seg);
    lemma_decimal_no_nl(n);
    lemma_times_shape(seg, sep);
    let body = cue_body(n, seg, sep);
    let s = body + seq!['\n', '\n'] + rest;
    assert forall|i: int| 0 <= i < body.len() implies !occurs_at(s, seq!['\n', '\n'], i) by {
        if occurs_at(s, seq!['\n', '\n'], i) {
            assert(s.subrange(i, i + 2)[0] == s[i]);
            assert(s.subrange(i, i + 2)[1] == s[i + 1]);
            assert(s[i] == '\n' && s[i + 1] == '\n');
            if i < d.len() {
                assert(s[i] == d[i]);
            } else if i == d.len() {
                assert(s[i + 1] == t[0]);
            } else if i < d.len() + 1 + t.len() {
                assert(s[i] == t[i - d.len() - 1]);
            } else if i == d.len() + 1 + t.len() {
                assert(s[i + 1] == x[0]);
            } else if i < body.len() - 1 {
                assert(s[i] == x[i - d.len() - 2 - t.len()]);
            } else {
                assert(s[i] == x.last());
            }
        }
    }
}

/// Splitting at a separator that first occurs right after `b`.
proof fn lemma_split_sep_prefix(b: Seq<char>, rest: Seq<char>, sep: Seq<char>)
    requires
        sep.len() > 0,
        forall|i: int| 0 <= i < b.len() ==> !occurs_at(b + sep + rest, sep, i),
    ensures
        split_str(b + sep + rest, sep) == seq![b] + split_str(rest, sep),
    decreases b.len(),
{
    let s = b + sep + rest;
    lemma_split_str_nonempty(rest, sep);
    if b.len() == 0 {
        assert(b =~= Seq::<char>::empty());
        assert(s =~= sep + rest);
        assert(s.take(sep.len() as int) =~= sep);
        assert(s.skip(sep.len() as int) =~= rest);
    } else {
        let b1 = b.drop_first();
        assert(s.drop_first() =~= b1 + sep + rest);
        assert forall|i: int| 0 <= i < b1.len() implies !occurs_at(b1 + sep + rest, sep, i) by {
            assert(!occurs_at(s, sep, i + 1));
            assert((b1 + sep + rest).subrange(i, i + sep.len()) =~= s.subrange(
                i + 1,
                i + 1 + sep.len(),
            ));
        }
        lemma_split_sep_prefix(b1, rest, sep);
        assert(!occurs_at(s, sep, 0));
        assert(s.take(sep.len() as int) =~= s.subrange(0, sep.len() as int));
        let r = split_str(s.drop_first(), sep);
        assert(seq![s[0]] + r[0] =~= b);
        assert(r.update(0, seq![s[0]] + r[0]) =~= seq![b] + split_str(rest, sep));
    }
}

} // verus!
