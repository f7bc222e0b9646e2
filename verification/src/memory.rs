//! The working memory of the assistant: notes of what the user did and
//! prefers, kept to the most recent 300; a digest of the latest notes for
//! the start of a conversation; and a cached summary that is made again only
//! once enough new notes have come in.
use crate::json::{message_content, spec_json_valid, spec_message_content};
use crate::stamps::now_minute_stamp;
use crate::text::{append_str, join, join_strings, str_views, trim, trim_str};
use vstd::prelude::*;

verus! {

/// One note.
pub struct MemoryEntry {
    pub timestamp: String,
    /// `tercih`, `islem` or `aliskanlik-ozet`.
    pub category: String,
    pub text: String,
}

/// The summary kept from the last time one was made, with the number of
/// notes there were then.
pub struct CachedSummary {
    pub text: String,
    pub entry_count_at_summary: usize,
}

/// What to give as the memory's summary.
pub enum SummaryStep {
    /// Too few notes to summarize: the raw digest of the last 50.
    RawDigest,
    /// Few new notes since the cached summary: that summary.
    Cached { text: String },
    /// Ask the model for a new summary.
    Fresh,
}

// ---------------------------------------------------------------------
// Specifications
// ---------------------------------------------------------------------

/// The number of notes kept.
pub open spec fn max_entries() -> nat {
    300
}

/// `(timestamp, category, text)` of a note.
pub open spec fn entry_view(e: MemoryEntry) -> (Seq<char>, Seq<char>, Seq<char>) {
    (e.timestamp@, e.category@, e.text@)
}

pub open spec fn entry_views(v: Seq<MemoryEntry>) -> Seq<(Seq<char>, Seq<char>, Seq<char>)> {
    v.map_values(|e: MemoryEntry| entry_view(e))
}

/// The last `n` elements of `s` (all of them when there are fewer).
pub open spec fn last_n<A>(s: Seq<A>, n: nat) -> Seq<A> {
    if s.len() <= n {
        s
    } else {
        s.skip(s.len() - n)
    }
}

/// The notes after adding one: the newest 300 of them.
pub open spec fn remembered(
    entries: Seq<(Seq<char>, Seq<char>, Seq<char>)>,
    e: (Seq<char>, Seq<char>, Seq<char>),
) -> Seq<(Seq<char>, Seq<char>, Seq<char>)> {
    last_n(entries.push(e), max_entries())
}

/// A note as a digest line: `- [{timestamp}] {category}: {text}` and a
/// line feed.
pub open spec fn digest_line(e: (Seq<char>, Seq<char>, Seq<char>)) -> Seq<char> {
    "- ["@ + e.0 + "] "@ + e.1 + ": "@ + e.2 + "\n"@
}

/// The lines one after the other.
pub open spec fn digest_lines(es: Seq<(Seq<char>, Seq<char>, Seq<char>)>) -> Seq<char>
    decreases es.len(),
{
    if es.len() == 0 {
        Seq::empty()
    } else {
        digest_lines(es.drop_last()) + digest_line(es.last())
    }
}

/// The digest of the notes: nothing without notes; otherwise a heading and
/// the last `max` notes, oldest first.
pub open spec fn digest_spec(es: Seq<(Seq<char>, Seq<char>, Seq<char>)>, max: nat) -> Seq<char> {
    if es.len() == 0 {
        Seq::empty()
    } else {
        "Kullanıcı ve geçmiş işlemler hakkında bildiklerin:\n"@ + digest_lines(last_n(es, max))
    }
}

/// A note as a line of the log handed to the model: `[{timestamp}]
/// {category}: {text}`.
pub open spec fn log_line(e: (Seq<char>, Seq<char>, Seq<char>)) -> Seq<char> {
    "["@ + e.0 + "] "@ + e.1 + ": "@ + e.2
}

/// The log of the last 80 notes, one per line.
pub open spec fn summary_log_spec(es: Seq<(Seq<char>, Seq<char>, Seq<char>)>) -> Seq<char> {
    join(last_n(es, 80).map_values(|e: (Seq<char>, Seq<char>, Seq<char>)| log_line(e)), "\n"@)
}

pub open spec fn summary_instruction() -> &'static str {
    "Aşağıda bir kullanıcının masaüstü AI asistanıyla geçmiş işlem kayıtları var. Bunu 3-4 cümlelik, akıcı bir Türkçe özete dönüştür: kullanıcının hangi konularda çalıştığını, hangi tür dosyalarla uğraştığını ve varsa tekrar eden tercihlerini vurgula. Sadece özeti yaz, başka açıklama ekleme.\n\n--- KAYITLAR ---\n"
}

/// Which summary to give for `count` notes and the cached summary.
pub open spec fn summary_step_spec(count: nat, cached: Option<(Seq<char>, nat)>) -> SummaryView {
    if count < 5 {
        SummaryView::RawDigest
    } else {
        match cached {
            Some(c) => if count < c.1 + 12 {
                SummaryView::Cached { text: c.0 }
            } else {
                SummaryView::Fresh
            },
            None => SummaryView::Fresh,
        }
    }
}

/// A summary step as plain values.
pub enum SummaryView {
    RawDigest,
    Cached { text: Seq<char> },
    Fresh,
}

pub open spec fn summary_view(s: SummaryStep) -> SummaryView {
    match s {
        SummaryStep::RawDigest => SummaryView::RawDigest,
        SummaryStep::Cached { text } => SummaryView::Cached { text: text@ },
        SummaryStep::Fresh => SummaryView::Fresh,
    }
}

// ---------------------------------------------------------------------
// Notes
// ---------------------------------------------------------------------

/// A copy of a note.
fn copy_entry(e: &MemoryEntry) -> (r: MemoryEntry)
    ensures
        entry_view(r) == entry_view(*e),
{
    MemoryEntry { timestamp: e.timestamp.clone(), category: e.category.clone(), text: e.text.clone() }
}

/// Adds a note; only the newest 300 are kept.
pub fn remember_at(entries: &mut Vec<MemoryEntry>, timestamp: String, category: String, text: String)
    ensures
        entry_views(final(entries)@) == remembered(
            entry_views(old(entries)@),
            (timestamp@, category@, text@),
        ),
{
    let ghost before = entry_views(entries@);
    let e = MemoryEntry { timestamp, category, text };
    let ghost ev = entry_view(e);
    entries.push(e);
    let ghost pushed = entry_views(entries@);
    proof {
        assert(pushed =~= before.push(ev));
    }
    if entries.len() > 300 {
        let excess = entries.len() - 300;
        let mut kept: Vec<MemoryEntry> = Vec::new();
        let mut i = excess;
        while i < entries.len()
            invariant
                excess <= i <= entries@.len(),
                entry_views(entries@) == pushed,
                entry_views(kept@) == pushed.subrange(excess as int, i as int),
            decreases entries.len() - i,
        {
            let ghost k0 = entry_views(kept@);
            kept.push(copy_entry(&entries[i]));
            proof {
                assert(entry_views(kept@) =~= k0.push(pushed[i as int]));
                assert(pushed.subrange(excess as int, i + 1) =~= pushed.subrange(excess as int, i as int).push(
                    pushed[i as int],
                ));
            }
            i = i + 1;
        }
        proof {
            assert(pushed.subrange(excess as int, pushed.len() as int) =~= pushed.skip(excess as int));
        }
        *entries = kept;
    }
}

/// Adds a note stamped with the current time (see [`remember_at`]).
pub fn remember(entries: &mut Vec<MemoryEntry>, category: String, text: String)
    ensures
        exists|ts: Seq<char>| entry_views(final(entries)@) == remembered(
            entry_views(old(entries)@),
            (ts, category@, text@),
        ),
{
    let ts = now_minute_stamp();
    let ghost t = ts@;
    let ghost c = category@;
    let ghost x = text@;
    remember_at(entries, ts, category, text);
    assert(entry_views(entries@) == remembered(entry_views(old(entries)@), (t, c, x)));
}

/// The digest line of one note.
fn push_digest_line(out: &mut String, e: &MemoryEntry)
    ensures
        final(out)@ == old(out)@ + digest_line(entry_view(*e)),
{
    append_str(out, "- [");
    append_str(out, e.timestamp.as_str());
    append_str(out, "] ");
    append_str(out, e.category.as_str());
    append_str(out, ": ");
    append_str(out, e.text.as_str());
    append_str(out, "\n");
}

/// The digest of the last `max_entries` notes for the start of a
/// conversation; empty when there are no notes.
pub fn memory_digest(entries: &Vec<MemoryEntry>, max_entries: usize) -> (r: String)
    ensures
        r@ == digest_spec(entry_views(entries@), max_entries as nat),
{
    if entries.len() == 0 {
        return String::new();
    }
    let ghost es = entry_views(entries@);
    let start: usize = if entries.len() <= max_entries {
        0
    } else {
        entries.len() - max_entries
    };
    let ghost recent = last_n(es, max_entries as nat);
    proof {
        assert(recent =~= es.skip(start as int));
    }
    let mut out = "Kullanıcı ve geçmiş işlemler hakkında bildiklerin:\n".to_owned();
    let ghost head = out@;
    let mut i = start;
    while i < entries.len()
        invariant
            start <= i <= entries@.len(),
            es == entry_views(entries@),
            recent == es.skip(start as int),
            out@ == head + digest_lines(recent.take(i - start)),
        decreases entries.len() - i,
    {
        proof {
            assert(recent.take(i - start + 1).drop_last() =~= recent.take(i - start));
            assert(recent.take(i - start + 1).last() == entry_view(entries@[i as int]));
        }
        push_digest_line(&mut out, &entries[i]);
        proof {
            assert(out@ =~= head + digest_lines(recent.take(i - start + 1)));
        }
        i = i + 1;
    }
    proof {
        assert(recent.take(entries.len() - start) =~= recent);
    }
    out
}

// ---------------------------------------------------------------------
// Summary
// ---------------------------------------------------------------------

/// Which summary to give for `count` notes: the raw digest below 5 notes;
/// the cached summary while fewer than 12 notes came in since it was made;
/// otherwise a new one.
pub fn summary_step(count: usize, cached: &Option<CachedSummary>) -> (r: SummaryStep)
    ensures
        summary_view(r) == summary_step_spec(
            count as nat,
            match cached {
                Some(c) => Some((c.text@, c.entry_count_at_summary as nat)),
                None => None,
            },
        ),
{
    if count < 5 {
        return SummaryStep::RawDigest;
    }
    match cached {
        Some(c) => {
            if count < c.entry_count_at_summary || count - c.entry_count_at_summary < 12 {
                SummaryStep::Cached { text: c.text.clone() }
            } else {
                SummaryStep::Fresh
            }
        },
        None => SummaryStep::Fresh,
    }
}

/// The log of the last 80 notes handed to the model, one per line.
pub fn summary_log(entries: &Vec<MemoryEntry>) -> (r: String)
    ensures
        r@ == summary_log_spec(entry_views(entries@)),
{
    let ghost es = entry_views(entries@);
    let start: usize = if entries.len() <= 80 {
        0
    } else {
        entries.len() - 80
    };
    let ghost recent = last_n(es, 80);
    let ghost mapped = recent.map_values(|e: (Seq<char>, Seq<char>, Seq<char>)| log_line(e));
    proof {
        assert(recent =~= es.skip(start as int));
    }
    let mut lines: Vec<String> = Vec::new();
    let mut i = start;
    while i < entries.len()
        invariant
            start <= i <= entries@.len(),
            es == entry_views(entries@),
            recent == es.skip(start as int),
            mapped == recent.map_values(|e: (Seq<char>, Seq<char>, Seq<char>)| log_line(e)),
            str_views(lines@) == mapped.take(i - start),
        decreases entries.len() - i,
    {
        let e = &entries[i];
        let mut l = "[".to_owned();
        append_str(&mut l, e.timestamp.as_str());
        append_str(&mut l, "] ");
        append_str(&mut l, e.category.as_str());
        append_str(&mut l, ": ");
        append_str(&mut l, e.text.as_str());
        let ghost l0 = lines@;
        lines.push(l);
        proof {
            assert(mapped[i - start] == log_line(entry_view(entries@[i as int])));
            assert(str_views(lines@) =~= str_views(l0).push(mapped[i - start]));
            assert(mapped.take(i - start + 1) =~= mapped.take(i - start).push(mapped[i - start]));
        }
        i = i + 1;
    }
    proof {
        assert(mapped.take(entries.len() - start) =~= mapped);
    }
    join_strings(&lines, "\n")
}

fn summary_instruction_text() -> (s: &'static str)
    ensures
        s@ == summary_instruction()@,
{
    "Aşağıda bir kullanıcının masaüstü AI asistanıyla geçmiş işlem kayıtları var. Bunu 3-4 cümlelik, akıcı bir Türkçe özete dönüştür: kullanıcının hangi konularda çalıştığını, hangi tür dosyalarla uğraştığını ve varsa tekrar eden tercihlerini vurgula. Sadece özeti yaz, başka açıklama ekleme.\n\n--- KAYITLAR ---\n"
}

/// The request that asks the model to summarize the notes.
pub fn summary_prompt(entries: &Vec<MemoryEntry>) -> (r: String)
    ensures
        r@ == summary_instruction()@ + summary_log_spec(entry_views(entries@)),
{
    let mut r = summary_instruction_text().to_owned();
    let log = summary_log(entries);
    append_str(&mut r, log.as_str());
    r
}

/// The summary in a reply body of the local engine: its trimmed
/// `message.content` when that is not empty.
pub fn summary_from_reply(body: &str) -> (r: Result<String, String>)
    ensures
        !spec_json_valid(body@) ==> r is Err && r->Err_0@ == crate::json::body_decode_message(),
        spec_json_valid(body@) ==> match spec_message_content(body@) {
            Some(c) => if trim(c).len() > 0 {
                r is Ok && r->Ok_0@ == trim(c)
            } else {
                r is Err && r->Err_0@ == "Özet üretilemedi."@
            },
            None => r is Err && r->Err_0@ == "Özet üretilemedi."@,
        },
{
    match message_content(body) {
        Err(_) => Err(crate::json::body_decode_error()),
        Ok(None) => Err("Özet üretilemedi.".to_owned()),
        Ok(Some(c)) => {
            let t = trim_str(c.as_str());
            if t.as_str().is_empty() {
                Err("Özet üretilemedi.".to_owned())
            } else {
                Ok(t)
            }
        },
    }
}

/// The cache entry for a summary made from `count` notes.
pub fn cache_summary(text: String, count: usize) -> (r: CachedSummary)
    ensures
        r.text@ == text@,
        r.entry_count_at_summary == count,
{
    CachedSummary { text, entry_count_at_summary: count }
}

// ---------------------------------------------------------------------
// Laws
// ---------------------------------------------------------------------

/// Remembering keeps at most 300 notes, the new one last, and the notes
/// before it in their order: dropping only the oldest.
pub proof fn lemma_remember_bounded(
    entries: Seq<(Seq<char>, Seq<char>, Seq<char>)>,
    e: (Seq<char>, Seq<char>, Seq<char>),
)
    ensures
        remembered(entries, e).len() <= max_entries(),
        remembered(entries, e).len() == if entries.len() + 1 <= max_entries() {
            entries.len() + 1
        } else {
            max_entries()
        },
        remembered(entries, e).last() == e,
        remembered(entries, e).drop_last() == last_n(entries, (remembered(entries, e).len() - 1) as nat),
{
    let p = entries.push(e);
    if p.len() > max_entries() {
        assert(p.skip(p.len() - max_entries()).drop_last() =~= entries.skip(entries.len() - (max_entries() - 1)));
    } else {
        assert(p.drop_last() =~= entries);
    }
}

/// The cached summary is given back until twelve new notes have come in
/// since it was made, and never for fewer than five notes.
pub proof fn lemma_cache_reuse(count: nat, text: Seq<char>, at: nat)
    ensures
        count >= 5 && count < at + 12 ==> summary_step_spec(count, Some((text, at))) == (SummaryView::Cached {
            text,
        }),
        count >= 5 && count >= at + 12 ==> summary_step_spec(count, Some((text, at))) == SummaryView::Fresh,
        count < 5 ==> summary_step_spec(count, Some((text, at))) == SummaryView::RawDigest,
{
}

} // verus!
