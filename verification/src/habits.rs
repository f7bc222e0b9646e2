//! Usage habits: how long each window has been active, added up tick by
//! tick, and a plain threshold rule that suggests a break after more than
//! two hours on the same window.
use crate::models::{spec_utf8_lossy, utf8_lossy};
use crate::text::{append_str, decimal, push_decimal, str_eq, trim, trim_str};
use vstd::prelude::*;

verus! {

/// The usage log.
pub struct HabitLog {
    /// Seconds of activity per window title, each title once.
    pub totals_seconds: Vec<(String, u64)>,
    pub last_active_app: String,
    pub last_seen_unix: u64,
}

// ---------------------------------------------------------------------
// Specifications
// ---------------------------------------------------------------------

/// The totals as plain values.
pub open spec fn totals_view(v: Seq<(String, u64)>) -> Seq<(Seq<char>, nat)> {
    v.map_values(|e: (String, u64)| (e.0@, e.1 as nat))
}

/// No title occurs twice.
pub open spec fn titles_distinct(t: Seq<(Seq<char>, nat)>) -> bool {
    forall|i: int, j: int| 0 <= i < j < t.len() ==> (#[trigger] t[i]).0 != (#[trigger] t[j]).0
}

/// The seconds counted for `title` (0 when it never was active).
pub open spec fn total_of(t: Seq<(Seq<char>, nat)>, title: Seq<char>) -> nat
    decreases t.len(),
{
    if t.len() == 0 {
        0
    } else if t.last().0 == title {
        t.last().1
    } else {
        total_of(t.drop_last(), title)
    }
}

/// The largest total (0 without any).
pub open spec fn max_total(t: Seq<(Seq<char>, nat)>) -> nat
    decreases t.len(),
{
    if t.len() == 0 {
        0
    } else {
        let m = max_total(t.drop_last());
        if t.last().1 > m {
            t.last().1
        } else {
            m
        }
    }
}

impl HabitLog {
    /// Each title is counted once.
    pub open spec fn wf(&self) -> bool {
        titles_distinct(totals_view(self.totals_seconds@))
    }

    /// The seconds counted for `title`.
    pub open spec fn total(&self, title: Seq<char>) -> nat {
        total_of(totals_view(self.totals_seconds@), title)
    }
}

/// The suggestion for a log whose largest total is `secs` seconds.
pub open spec fn break_message(app: Seq<char>, secs: nat) -> Seq<char> {
    "'"@ + app + "' üzerinde uzun süredir çalışıyorsunuz ("@ + decimal(secs / 60)
        + " dakika). Kısa bir mola vermek ister misiniz?"@
}

// ---------------------------------------------------------------------
// Lemmas
// ---------------------------------------------------------------------

proof fn lemma_total_at(t: Seq<(Seq<char>, nat)>, i: int)
    requires
        titles_distinct(t),
        0 <= i < t.len(),
    ensures
        total_of(t, t[i].0) == t[i].1,
    decreases t.len(),
{
    if i < t.len() - 1 {
        assert(t[i].0 != t[t.len() - 1].0);
        assert(t.drop_last()[i] == t[i]);
        lemma_total_at(t.drop_last(), i);
    }
}

proof fn lemma_total_absent(t: Seq<(Seq<char>, nat)>, title: Seq<char>)
    requires
        forall|i: int| 0 <= i < t.len() ==> (#[trigger] t[i]).0 != title,
    ensures
        total_of(t, title) == 0,
    decreases t.len(),
{
    if t.len() > 0 {
        let d = t.drop_last();
        assert forall|i: int| 0 <= i < d.len() implies (#[trigger] d[i]).0 != title by {
            assert(d[i] == t[i]);
        }
        lemma_total_absent(d, title);
    }
}

/// The total of any title in terms of the positions of `t`.
proof fn lemma_total_cases(t: Seq<(Seq<char>, nat)>, title: Seq<char>)
    requires
        titles_distinct(t),
    ensures
        (exists|i: int| 0 <= i < t.len() && (#[trigger] t[i]).0 == title) || total_of(t, title) == 0,
        forall|i: int| 0 <= i < t.len() && (#[trigger] t[i]).0 == title ==> total_of(t, title) == t[i].1,
{
    assert forall|i: int| 0 <= i < t.len() && (#[trigger] t[i]).0 == title implies total_of(t, title) == t[i].1 by {
        lemma_total_at(t, i);
    }
    if !(exists|i: int| 0 <= i < t.len() && (#[trigger] t[i]).0 == title) {
        lemma_total_absent(t, title);
    }
}

proof fn lemma_max_total(t: Seq<(Seq<char>, nat)>)
    ensures
        forall|i: int| 0 <= i < t.len() ==> (#[trigger] t[i]).1 <= max_total(t),
        t.len() > 0 ==> exists|i: int| 0 <= i < t.len() && (#[trigger] t[i]).1 == max_total(t),
    decreases t.len(),
{
    if t.len() > 0 {
        let d = t.drop_last();
        lemma_max_total(d);
        assert forall|i: int| 0 <= i < t.len() implies (#[trigger] t[i]).1 <= max_total(t) by {
            if i < t.len() - 1 {
                assert(d[i] == t[i]);
            }
        }
        if t.last().1 > max_total(d) || d.len() == 0 {
            assert(t[t.len() - 1].1 == max_total(t));
        } else {
            let k = choose|k: int| 0 <= k < d.len() && (#[trigger] d[k]).1 == max_total(d);
            assert(t[k] == d[k]);
        }
    }
}

// ---------------------------------------------------------------------
// Operations
// ---------------------------------------------------------------------

impl HabitLog {
    /// An empty log.
    pub fn empty() -> (r: HabitLog)
        ensures
            r.wf(),
            r.totals_seconds@.len() == 0,
            r.last_active_app@ == Seq::<char>::empty(),
            r.last_seen_unix == 0,
    {
        HabitLog { totals_seconds: Vec::new(), last_active_app: String::new(), last_seen_unix: 0 }
    }
}

impl Default for HabitLog {
    fn default() -> (r: HabitLog)
        ensures
            r.wf(),
            r.totals_seconds@.len() == 0,
            r.last_active_app@ == Seq::<char>::empty(),
            r.last_seen_unix == 0,
    {
        HabitLog::empty()
    }
}

/// Position of `title` among the totals.
fn find_title(v: &Vec<(String, u64)>, title: &str) -> (r: Option<usize>)
    ensures
        match r {
            Some(i) => i < v@.len() && totals_view(v@)[i as int].0 == title@,
            None => forall|j: int| 0 <= j < v@.len() ==> (#[trigger] totals_view(v@)[j]).0 != title@,
        },
{
    let mut i: usize = 0;
    while i < v.len()
        invariant
            i <= v@.len(),
            forall|j: int| 0 <= j < i ==> (#[trigger] totals_view(v@)[j]).0 != title@,
        decreases v.len() - i,
    {
        if str_eq(v[i].0.as_str(), title) {
            return Some(i);
        }
        i = i + 1;
    }
    None
}

/// Adds `interval_seconds` to the window `window` and records it as the
/// last active one, seen at `now_unix`.
pub fn record_activity_tick(log: &mut HabitLog, window: String, interval_seconds: u64, now_unix: u64)
    requires
        old(log).wf(),
        old(log).total(window@) + interval_seconds <= u64::MAX,
    ensures
        final(log).wf(),
        final(log).total(window@) == old(log).total(window@) + interval_seconds,
        forall|k: Seq<char>| k != window@ ==> #[trigger] final(log).total(k) == old(log).total(k),
        final(log).last_active_app@ == window@,
        final(log).last_seen_unix == now_unix,
{
    let ghost t0 = totals_view(log.totals_seconds@);
    let found = find_title(&log.totals_seconds, window.as_str());
    let i: usize = match found {
        Some(i) => i,
        None => log.totals_seconds.len(),
    };
    proof {
        lemma_total_cases(t0, window@);
    }
    if i < log.totals_seconds.len() {
        proof {
            lemma_total_at(t0, i as int);
        }
        let (title, secs) = log.totals_seconds.remove(i);
        log.totals_seconds.insert(i, (title, secs + interval_seconds));
        let ghost t1 = totals_view(log.totals_seconds@);
        proof {
            assert(t1 =~= t0.update(i as int, (window@, t0[i as int].1 + interval_seconds as nat)));
            assert forall|a: int, b: int| 0 <= a < b < t1.len() implies (#[trigger] t1[a]).0 != (
            #[trigger] t1[b]).0 by {
                assert(t0[a].0 != t0[b].0);
            }
            lemma_total_at(t1, i as int);
            assert forall|k: Seq<char>| k != window@ implies #[trigger] total_of(t1, k) == total_of(t0, k) by {
                lemma_total_cases(t0, k);
                lemma_total_cases(t1, k);
                if exists|j: int| 0 <= j < t0.len() && (#[trigger] t0[j]).0 == k {
                    let j = choose|j: int| 0 <= j < t0.len() && (#[trigger] t0[j]).0 == k;
                    assert(t1[j] == t0[j]);
                }
                if exists|j: int| 0 <= j < t1.len() && (#[trigger] t1[j]).0 == k {
                    let j = choose|j: int| 0 <= j < t1.len() && (#[trigger] t1[j]).0 == k;
                    assert(t1[j] == t0[j]);
                }
            }
        }
    } else {
        let ghost w = window@;
        log.totals_seconds.push((window.clone(), interval_seconds));
        let ghost t1 = totals_view(log.totals_seconds@);
        proof {
            assert(t1 =~= t0.push((w, interval_seconds as nat)));
            assert(t1.drop_last() =~= t0);
            assert forall|a: int, b: int| 0 <= a < b < t1.len() implies (#[trigger] t1[a]).0 != (
            #[trigger] t1[b]).0 by {
                if b == t0.len() {
                    assert(t1[a] == t0[a]);
                } else {
                    assert(t0[a].0 != t0[b].0);
                }
            }
        }
    }
    log.last_active_app = window;
    log.last_seen_unix = now_unix;
}

/// The largest total of the log.
fn largest_total(log: &HabitLog) -> (r: u64)
    ensures
        r == max_total(totals_view(log.totals_seconds@)),
{
    let ghost t = totals_view(log.totals_seconds@);
    let mut m: u64 = 0;
    let mut i: usize = 0;
    while i < log.totals_seconds.len()
        invariant
            i <= log.totals_seconds@.len(),
            t == totals_view(log.totals_seconds@),
            m == max_total(t.take(i as int)),
        decreases log.totals_seconds.len() - i,
    {
        proof {
            assert(t.take(i + 1).drop_last() =~= t.take(i as int));
        }
        if log.totals_seconds[i].1 > m {
            m = log.totals_seconds[i].1;
        }
        i = i + 1;
    }
    proof {
        assert(t.take(i as int) =~= t);
    }
    m
}

/// Suggests a break when some window has been active for more than two
/// hours: the last active window is named, with the largest total in whole
/// minutes.
pub fn suggest_from_habits(log: &HabitLog) -> (r: Option<String>)
    ensures
        max_total(totals_view(log.totals_seconds@)) > 7200 ==> (r matches Some(m) && m@ == break_message(
            log.last_active_app@,
            max_total(totals_view(log.totals_seconds@)),
        )),
        max_total(totals_view(log.totals_seconds@)) <= 7200 ==> r is None,
{
    let secs = largest_total(log);
    if secs > 2 * 3600 {
        let mut m = "'".to_owned();
        append_str(&mut m, log.last_active_app.as_str());
        append_str(&mut m, "' üzerinde uzun süredir çalışıyorsunuz (");
        push_decimal(&mut m, secs / 60);
        append_str(&mut m, " dakika). Kısa bir mola vermek ister misiniz?");
        Some(m)
    } else {
        None
    }
}

/// The title of the active window from what `xdotool getwindowname`
/// printed: the text, trimmed.
pub fn active_window_name(stdout: &Vec<u8>) -> (r: String)
    ensures
        r@ == trim(spec_utf8_lossy(stdout@)),
{
    let text = utf8_lossy(stdout.as_slice());
    trim_str(text.as_str())
}

/// The error when `xdotool` cannot be started.
pub fn xdotool_missing_error() -> (r: String)
    ensures
        r@ == "xdotool bulunamadı (X11 gerekli). Wayland'de bu özellik henüz desteklenmiyor."@,
{
    "xdotool bulunamadı (X11 gerekli). Wayland'de bu özellik henüz desteklenmiyor.".to_owned()
}

/// The error when `xdotool` could not read the active window.
pub fn no_active_window_error() -> (r: String)
    ensures
        r@ == "Aktif pencere okunamadı (ör. hiçbir pencere odakta değil)."@,
{
    "Aktif pencere okunamadı (ör. hiçbir pencere odakta değil).".to_owned()
}

// ---------------------------------------------------------------------
// Laws
// ---------------------------------------------------------------------

/// A break is suggested exactly when some window's total is over two
/// hours.
pub proof fn lemma_suggestion_threshold(t: Seq<(Seq<char>, nat)>)
    ensures
        max_total(t) > 7200 <==> exists|i: int| 0 <= i < t.len() && (#[trigger] t[i]).1 > 7200,
{
    lemma_max_total(t);
    if max_total(t) > 7200 {
        if t.len() == 0 {
        } else {
            let k = choose|k: int| 0 <= k < t.len() && (#[trigger] t[k]).1 == max_total(t);
            assert(t[k].1 > 7200);
        }
    }
}

} // verus!
