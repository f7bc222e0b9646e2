//! Downloading a model through the local engine's pull endpoint: the reply
//! is a stream of JSON lines; the library cuts the stream into lines, reads
//! each line's fields, and decides when a layer changed, when a speed
//! sample is due and when the user is told.
use crate::text::{append_str, find_first, lemma_find_first_at, lemma_find_first_none, trim};
use vstd::prelude::*;

verus! {

/// What one line of the pull stream says.
pub enum PullEvent {
    /// The engine reported an error.
    Failed { message: String },
    /// Progress: `status` text, the layer's digest, its size and how much
    /// of it arrived; `done` once the status is `success`.
    Progress { status: String, digest: Option<String>, total: u64, completed: u64, done: bool },
}

/// The measuring window of the download speed: the layer it belongs to and
/// how many bytes had arrived when it opened.
pub struct PullMeter {
    pub current_digest: Option<String>,
    pub window_start_bytes: u64,
}

// ---------------------------------------------------------------------
// Specifications
// ---------------------------------------------------------------------

/// The predicate "is a line feed".
pub open spec fn is_newline() -> spec_fn(u8) -> bool {
    |b: u8| b == 10u8
}

/// The complete lines at the front of `buf` (each with its line feed) and
/// what is left after the last line feed.
pub open spec fn complete_lines(buf: Seq<u8>) -> (Seq<Seq<u8>>, Seq<u8>)
    decreases buf.len(),
{
    let k = find_first(buf, is_newline());
    if k < 0 || k >= buf.len() {
        (Seq::empty(), buf)
    } else {
        let rest = complete_lines(buf.skip(k + 1));
        (seq![buf.take(k + 1)] + rest.0, rest.1)
    }
}

/// `String::from_utf8_lossy` of the bytes.
pub uninterp spec fn spec_utf8_lossy(bytes: Seq<u8>) -> Seq<char>;

/// The fields of a stream line parsed as JSON: `error`, `status`,
/// `digest` (each when it is a string), `total` and `completed` (each when
/// it is an unsigned integer); `None` when the line is not JSON.
pub uninterp spec fn spec_pull_fields(text: Seq<char>) -> Option<
    (Option<Seq<char>>, Option<Seq<char>>, Option<Seq<char>>, Option<u64>, Option<u64>),
>;

/// An event as plain values.
pub enum EventView {
    Failed { message: Seq<char> },
    Progress { status: Seq<char>, digest: Option<Seq<char>>, total: nat, completed: nat, done: bool },
}

pub open spec fn event_view(e: PullEvent) -> EventView {
    match e {
        PullEvent::Failed { message } => EventView::Failed { message: message@ },
        PullEvent::Progress { status, digest, total, completed, done } => EventView::Progress {
            status: status@,
            digest: crate::json::opt_str(digest),
            total: total as nat,
            completed: completed as nat,
            done,
        },
    }
}

/// What a stream line says: nothing for a blank line or one that is not
/// JSON (it may be completed by a later chunk); the error when there is
/// one; else the progress, missing fields counting as empty or 0.
pub open spec fn event_of_line(line: Seq<char>) -> Option<EventView> {
    let t = trim(line);
    if t.len() == 0 {
        None
    } else {
        match spec_pull_fields(t) {
            None => None,
            Some(f) => match f.0 {
                Some(m) => Some(EventView::Failed { message: m }),
                None => {
                    let status = match f.1 {
                        Some(s) => s,
                        None => Seq::empty(),
                    };
                    Some(
                        EventView::Progress {
                            status,
                            digest: f.2,
                            total: match f.3 {
                                Some(x) => x as nat,
                                None => 0,
                            },
                            completed: match f.4 {
                                Some(x) => x as nat,
                                None => 0,
                            },
                            done: status == "success"@,
                        },
                    )
                },
            },
        }
    }
}

/// A meter as plain values.
pub open spec fn meter_view(m: PullMeter) -> (Option<Seq<char>>, nat) {
    (crate::json::opt_str(m.current_digest), m.window_start_bytes as nat)
}

// ---------------------------------------------------------------------
// Cutting the stream into lines
// ---------------------------------------------------------------------

/// A copy of `v[lo..hi]`.
fn bytes_of_range(v: &Vec<u8>, lo: usize, hi: usize) -> (r: Vec<u8>)
    requires
        lo <= hi <= v.len(),
    ensures
        r@ == v@.subrange(lo as int, hi as int),
{
    let mut r: Vec<u8> = Vec::new();
    let mut i = lo;
    while i < hi
        invariant
            lo <= i <= hi <= v.len(),
            r@ == v@.subrange(lo as int, i as int),
        decreases hi - i,
    {
        r.push(v[i]);
        i = i + 1;
        assert(r@ =~= v@.subrange(lo as int, i as int));
    }
    r
}

/// Takes the complete lines out of the front of `buf`, each with its line
/// feed, in order; what follows the last line feed stays in `buf`.
pub fn take_lines(buf: &mut Vec<u8>) -> (r: Vec<Vec<u8>>)
    ensures
        r@.map_values(|l: Vec<u8>| l@) == complete_lines(old(buf)@).0,
        final(buf)@ == complete_lines(old(buf)@).1,
{
    let ghost b = buf@;
    let mut out: Vec<Vec<u8>> = Vec::new();
    let mut start: usize = 0;
    let mut i: usize = 0;
    proof {
        assert(b.skip(0) =~= b);
    }
    while i < buf.len()
        invariant
            buf@ == b,
            start <= i <= b.len(),
            forall|j: int| start <= j < i ==> b[j] != 10u8,
            out@.map_values(|l: Vec<u8>| l@) + complete_lines(b.skip(start as int)).0 == complete_lines(b).0,
            complete_lines(b.skip(start as int)).1 == complete_lines(b).1,
        decreases b.len() - i,
    {
        if buf[i] == 10u8 {
            let ghost s = b.skip(start as int);
            proof {
                assert forall|j: int| 0 <= j < i - start implies !is_newline()(#[trigger] s[j]) by {
                    assert(s[j] == b[start + j]);
                }
                assert(s[i - start] == b[i as int]);
                lemma_find_first_at(s, is_newline(), i - start);
                assert(s.take(i - start + 1) =~= b.subrange(start as int, i + 1));
                assert(s.skip(i - start + 1) =~= b.skip(i + 1));
            }
            let line = bytes_of_range(buf, start, i + 1);
            let ghost before = out@.map_values(|l: Vec<u8>| l@);
            out.push(line);
            proof {
                assert(out@.map_values(|l: Vec<u8>| l@) =~= before.push(b.subrange(start as int, i + 1)));
                assert(complete_lines(s).0 =~= seq![b.subrange(start as int, i + 1)] + complete_lines(
                    b.skip(i + 1),
                ).0);
                assert(before.push(b.subrange(start as int, i + 1)) + complete_lines(b.skip(i + 1)).0
                    =~= before + complete_lines(s).0);
            }
            start = i + 1;
        }
        i = i + 1;
    }
    let ghost s = b.skip(start as int);
    proof {
        assert forall|j: int| 0 <= j < s.len() implies !is_newline()(#[trigger] s[j]) by {
            assert(s[j] == b[start + j]);
        }
        lemma_find_first_none(s, is_newline());
        assert(out@.map_values(|l: Vec<u8>| l@) + Seq::<Seq<u8>>::empty() =~= out@.map_values(
            |l: Vec<u8>| l@,
        ));
    }
    let rest = bytes_of_range(buf, start, buf.len());
    proof {
        assert(rest@ =~= s);
    }
    *buf = rest;
    out
}

// ---------------------------------------------------------------------
// Reading a line
// ---------------------------------------------------------------------

/// `String::from_utf8_lossy`: the bytes as text, invalid sequences replaced.
#[verifier::external_body]
pub(crate) fn utf8_lossy(bytes: &[u8]) -> (r: String)
    ensures
        r@ == spec_utf8_lossy(bytes@),
{
    String::from_utf8_lossy(bytes).to_string()
}

/// `serde_json` reading the fields of a pull-stream line.
#[verifier::external_body]
fn pull_fields(text: &str) -> (r: Option<(Option<String>, Option<String>, Option<String>, Option<u64>, Option<u64>)>)
    ensures
        match r {
            Some(f) => spec_pull_fields(text@) == Some(
                (
                    crate::json::opt_str(f.0),
                    crate::json::opt_str(f.1),
                    crate::json::opt_str(f.2),
                    f.3,
                    f.4,
                ),
            ),
            None => spec_pull_fields(text@) is None,
        },
{
    let v: serde_json::Value = serde_json::from_str(text).ok()?;
    let s = |k: &str| v.get(k).and_then(|x| x.as_str()).map(|x| x.to_string());
    Some((s("error"), s("status"), s("digest"), v.get("total").and_then(|t| t.as_u64()),
        v.get("completed").and_then(|c| c.as_u64())))
}

/// What one stream line (as bytes, with its line feed) says.
pub fn read_pull_line(line: &Vec<u8>) -> (r: Option<PullEvent>)
    ensures
        match r {
            Some(e) => event_of_line(spec_utf8_lossy(line@)) == Some(event_view(e)),
            None => event_of_line(spec_utf8_lossy(line@)) is None,
        },
{
    let text = utf8_lossy(line.as_slice());
    let t = crate::text::trim_str(text.as_str());
    if t.as_str().is_empty() {
        return None;
    }
    match pull_fields(t.as_str()) {
        None => None,
        Some((error, status, digest, total, completed)) => match error {
            Some(m) => Some(PullEvent::Failed { message: m }),
            None => {
                let status = match status {
                    Some(s) => s,
                    None => String::new(),
                };
                let done = crate::text::str_eq(status.as_str(), "success");
                Some(
                    PullEvent::Progress {
                        status,
                        digest,
                        total: match total {
                            Some(x) => x,
                            None => 0,
                        },
                        completed: match completed {
                            Some(x) => x,
                            None => 0,
                        },
                        done,
                    },
                )
            },
        },
    }
}

// ---------------------------------------------------------------------
// Speed measuring and throttling
// ---------------------------------------------------------------------

/// Whether two optional digests are the same.
fn same_digest(a: &Option<String>, b: &Option<String>) -> (r: bool)
    ensures
        r == (crate::json::opt_str(*a) == crate::json::opt_str(*b)),
{
    match (a, b) {
        (Some(x), Some(y)) => crate::text::str_eq(x.as_str(), y.as_str()),
        (None, None) => true,
        _ => false,
    }
}

impl PullMeter {
    /// No layer measured yet.
    pub fn new() -> (r: PullMeter)
        ensures
            meter_view(r) == (None::<Seq<char>>, 0nat),
    {
        PullMeter { current_digest: None, window_start_bytes: 0 }
    }

    /// Takes in the layer of an event: when it differs from the measured
    /// one, the window starts over at `completed` bytes (the caller then
    /// restarts its clock and forgets the speed) and `true` is returned.
    pub fn switch_layer(&mut self, digest: &Option<String>, completed: u64) -> (r: bool)
        ensures
            r == (crate::json::opt_str(*digest) != meter_view(*old(self)).0),
            r ==> meter_view(*final(self)) == (crate::json::opt_str(*digest), completed as nat),
            !r ==> meter_view(*final(self)) == meter_view(*old(self)),
    {
        if same_digest(digest, &self.current_digest) {
            false
        } else {
            self.current_digest = match digest {
                Some(d) => Some(d.clone()),
                None => None,
            };
            self.window_start_bytes = completed;
            true
        }
    }

    /// Once the window has been open for at least 300 ms and bytes arrived,
    /// returns how many arrived in it and opens a new window at
    /// `completed` (the caller divides by the elapsed time and restarts its
    /// clock); otherwise nothing changes.
    pub fn sample(&mut self, completed: u64, window_elapsed_ms: u64) -> (r: Option<u64>)
        ensures
            (window_elapsed_ms >= 300 && completed > old(self).window_start_bytes) ==> r == Some(
                (completed - old(self).window_start_bytes) as u64,
            ) && meter_view(*final(self)) == (meter_view(*old(self)).0, completed as nat),
            !(window_elapsed_ms >= 300 && completed > old(self).window_start_bytes) ==> r is None
                && meter_view(*final(self)) == meter_view(*old(self)),
    {
        if window_elapsed_ms >= 300 && completed > self.window_start_bytes {
            let delta = completed - self.window_start_bytes;
            self.window_start_bytes = completed;
            Some(delta)
        } else {
            None
        }
    }
}

/// The bytes of the layer still to come, when some are (the estimate of
/// the remaining time divides them by the speed).
pub fn remaining_bytes(total: u64, completed: u64) -> (r: Option<u64>)
    ensures
        total > completed ==> r == Some((total - completed) as u64),
        total <= completed ==> r is None,
{
    if total > completed {
        Some(total - completed)
    } else {
        None
    }
}

/// Whether to tell the user now: always for the final event, otherwise at
/// most every 250 ms.
pub fn should_emit(done: bool, since_last_emit_ms: u64) -> (r: bool)
    ensures
        r == (done || since_last_emit_ms >= 250),
{
    done || since_last_emit_ms >= 250
}

/// The error when the engine refuses a request.
pub fn engine_http_error(status: &str, body: &str) -> (r: String)
    ensures
        r@ == "Ollama hata döndürdü ("@ + status@ + "): "@ + body@,
{
    let mut r = "Ollama hata döndürdü (".to_owned();
    append_str(&mut r, status);
    append_str(&mut r, "): ");
    append_str(&mut r, body);
    r
}

// ---------------------------------------------------------------------
// Laws
// ---------------------------------------------------------------------

/// Cutting loses nothing: the lines taken out, followed by what is left,
/// are the buffer as it was; each line taken out ends with its line feed
/// and has no other.
pub proof fn lemma_lines_rejoin(buf: Seq<u8>)
    ensures
        concat_all(complete_lines(buf).0) + complete_lines(
            buf,
        ).1 == buf,
        forall|i: int|
            0 <= i < complete_lines(buf).0.len() ==> {
                let l = #[trigger] complete_lines(buf).0[i];
                l.len() > 0 && l.last() == 10u8 && forall|j: int| 0 <= j < l.len() - 1 ==> l[j] != 10u8
            },
        forall|j: int| 0 <= j < complete_lines(buf).1.len() ==> complete_lines(buf).1[j] != 10u8,
    decreases buf.len(),
{
    let k = find_first(buf, is_newline());
    crate::text::lemma_find_first_valid(buf, is_newline());
    if k < 0 {
        assert(concat_all(complete_lines(buf).0) =~= Seq::<u8>::empty());
        assert(Seq::<u8>::empty() + buf =~= buf);
        assert forall|j: int| 0 <= j < buf.len() implies buf[j] != 10u8 by {
            lemma_find_first_none_means(buf, j);
        }
    } else {
        let rest = buf.skip(k + 1);
        lemma_lines_rejoin(rest);
        let head = buf.take(k + 1);
        let ls = complete_lines(rest).0;
        lemma_fold_prepend(head, ls);
        assert(head + rest =~= buf);
        assert forall|i: int| 0 <= i < complete_lines(buf).0.len() implies {
            let l = #[trigger] complete_lines(buf).0[i];
            l.len() > 0 && l.last() == 10u8 && forall|j: int| 0 <= j < l.len() - 1 ==> l[j] != 10u8
        } by {
            if i == 0 {
                assert(complete_lines(buf).0[0] == head);
                assert forall|j: int| 0 <= j < head.len() - 1 implies head[j] != 10u8 by {
                    lemma_before_first(buf, j);
                }
            } else {
                assert(complete_lines(buf).0[i] == ls[i - 1]);
            }
        }
    }
}

/// Elements before the first line feed are not line feeds.
proof fn lemma_before_first(buf: Seq<u8>, j: int)
    requires
        0 <= j < find_first(buf, is_newline()),
    ensures
        buf[j] != 10u8,
    decreases buf.len(),
{
    crate::text::lemma_find_first_valid(buf, is_newline());
    if j > 0 {
        let t = buf.drop_first();
        assert(t[j - 1] == buf[j]);
        lemma_before_first(t, j - 1);
    }
}

/// When there is no line feed, no element is one.
proof fn lemma_find_first_none_means(buf: Seq<u8>, j: int)
    requires
        find_first(buf, is_newline()) < 0,
        0 <= j < buf.len(),
    ensures
        buf[j] != 10u8,
    decreases buf.len(),
{
    if j > 0 {
        let t = buf.drop_first();
        assert(t[j - 1] == buf[j]);
        lemma_find_first_none_means(t, j - 1);
    }
}

/// The lines one after the other.
pub open spec fn concat_all(ls: Seq<Seq<u8>>) -> Seq<u8>
    decreases ls.len(),
{
    if ls.len() == 0 {
        Seq::empty()
    } else {
        concat_all(ls.drop_last()) + ls.last()
    }
}

/// Concatenating `[head] + ls` puts `head` in front.
proof fn lemma_fold_prepend(head: Seq<u8>, ls: Seq<Seq<u8>>)
    ensures
        concat_all(seq![head] + ls) == head + concat_all(ls),
    decreases ls.len(),
{
    let s = seq![head] + ls;
    if ls.len() == 0 {
        assert(s =~= seq![head]);
        assert(s.drop_last() =~= Seq::<Seq<u8>>::empty());
        assert(concat_all(s) == concat_all(s.drop_last()) + s.last());
        assert(Seq::<u8>::empty() + head =~= head);
        assert(head + Seq::<u8>::empty() =~= head);
    } else {
        lemma_fold_prepend(head, ls.drop_last());
        assert(s.drop_last() =~= seq![head] + ls.drop_last());
        assert(s.last() == ls.last());
        assert(concat_all(s) == concat_all(s.drop_last()) + s.last());
        assert(concat_all(ls) == concat_all(ls.drop_last()) + ls.last());
        assert(head + concat_all(ls.drop_last()) + ls.last() =~= head + (concat_all(ls.drop_last()) + ls.last()));
    }
}

} // verus!
