//! Language-learning sessions: one per language, level and scenario, each
//! with its whole message history, so that a lesson can be resumed where it
//! was left. The sessions are listed most recently updated first.
use crate::stamps::{new_uuid, now_rfc3339, random_failure_prefix, starts_with};
use crate::text::{str_eq, str_views};
use vstd::prelude::*;

verus! {

/// One message of a lesson.
pub struct LanguageMessage {
    pub role: String,
    pub content: String,
}

/// One lesson with its history.
pub struct LanguageSession {
    pub id: String,
    pub dil: String,
    pub seviye: String,
    pub senaryo: String,
    pub mesajlar: Vec<LanguageMessage>,
    /// RFC 3339 time of the last change.
    pub son_guncelleme: String,
}

// ---------------------------------------------------------------------
// Specifications
// ---------------------------------------------------------------------

/// A message as plain values.
pub open spec fn msg_view(m: LanguageMessage) -> (Seq<char>, Seq<char>) {
    (m.role@, m.content@)
}

pub open spec fn msg_views(v: Seq<LanguageMessage>) -> Seq<(Seq<char>, Seq<char>)> {
    v.map_values(|m: LanguageMessage| msg_view(m))
}

/// `(id, dil, seviye, senaryo, mesajlar, son_guncelleme)` of a session.
pub type SessionView = (Seq<char>, Seq<char>, Seq<char>, Seq<char>, Seq<(Seq<char>, Seq<char>)>, Seq<char>);

pub open spec fn session_view(s: LanguageSession) -> SessionView {
    (s.id@, s.dil@, s.seviye@, s.senaryo@, msg_views(s.mesajlar@), s.son_guncelleme@)
}

pub open spec fn session_views(v: Seq<LanguageSession>) -> Seq<SessionView> {
    v.map_values(|s: LanguageSession| session_view(s))
}

/// Position of the first session with id `id`, or -1.
pub open spec fn find_session(v: Seq<SessionView>, id: Seq<char>) -> int
    decreases v.len(),
{
    if v.len() == 0 {
        -1
    } else if v[0].0 == id {
        0
    } else {
        let r = find_session(v.drop_first(), id);
        if r < 0 {
            -1
        } else {
            r + 1
        }
    }
}

/// The sessions after the first one with id `id` was changed by `f`;
/// `None` when there is no such session.
pub open spec fn change_first(v: Seq<SessionView>, id: Seq<char>, f: spec_fn(SessionView) -> SessionView) -> Option<
    Seq<SessionView>,
> {
    let k = find_session(v, id);
    if k < 0 {
        None
    } else {
        Some(v.update(k, f(v[k])))
    }
}

/// New messages and time.
pub open spec fn set_messages(m: Seq<(Seq<char>, Seq<char>)>, now: Seq<char>) -> spec_fn(SessionView) -> SessionView {
    |s: SessionView| (s.0, s.1, s.2, s.3, m, now)
}

/// New level, scenario and time.
pub open spec fn set_meta(seviye: Seq<char>, senaryo: Seq<char>, now: Seq<char>) -> spec_fn(SessionView) -> SessionView {
    |s: SessionView| (s.0, s.1, seviye, senaryo, s.4, now)
}

/// New level and time.
pub open spec fn set_level(seviye: Seq<char>, now: Seq<char>) -> spec_fn(SessionView) -> SessionView {
    |s: SessionView| (s.0, s.1, seviye, s.3, s.4, now)
}

/// The sessions whose id is not `id`, in order.
pub open spec fn without(v: Seq<SessionView>, id: Seq<char>) -> Seq<SessionView> {
    v.filter(id_is_not(id))
}

/// The predicate "has another id than `id`".
pub open spec fn id_is_not(id: Seq<char>) -> spec_fn(SessionView) -> bool {
    |s: SessionView| s.0 != id
}

/// Lexicographic order of texts by code point, as `String`'s `<`.
pub open spec fn text_less(a: Seq<char>, b: Seq<char>) -> bool
    decreases a.len(),
{
    if a.len() == 0 {
        b.len() > 0
    } else if b.len() == 0 {
        false
    } else if a[0] != b[0] {
        (a[0] as u32) < (b[0] as u32)
    } else {
        text_less(a.drop_first(), b.drop_first())
    }
}

/// `sorted` with `x` placed after the last session updated no earlier.
pub open spec fn insert_by_time(sorted: Seq<SessionView>, x: SessionView) -> Seq<SessionView>
    decreases sorted.len(),
{
    if sorted.len() == 0 {
        seq![x]
    } else if !text_less(sorted.last().5, x.5) {
        sorted.push(x)
    } else {
        insert_by_time(sorted.drop_last(), x).push(sorted.last())
    }
}

/// The sessions most recently updated first, ties kept in order (a stable
/// sort on the descending time text).
pub open spec fn newest_first(s: Seq<SessionView>) -> Seq<SessionView>
    decreases s.len(),
{
    if s.len() == 0 {
        s
    } else {
        insert_by_time(newest_first(s.drop_last()), s.last())
    }
}

// ---------------------------------------------------------------------
// Copies
// ---------------------------------------------------------------------

fn copy_messages(v: &Vec<LanguageMessage>) -> (r: Vec<LanguageMessage>)
    ensures
        msg_views(r@) == msg_views(v@),
{
    let mut r: Vec<LanguageMessage> = Vec::new();
    let mut i: usize = 0;
    while i < v.len()
        invariant
            i <= v.len(),
            msg_views(r@) == msg_views(v@).take(i as int),
        decreases v.len() - i,
    {
        let ghost r0 = msg_views(r@);
        r.push(LanguageMessage { role: v[i].role.clone(), content: v[i].content.clone() });
        proof {
            assert(msg_views(r@) =~= r0.push(msg_view(v@[i as int])));
            assert(msg_views(v@).take(i + 1) =~= msg_views(v@).take(i as int).push(msg_view(v@[i as int])));
        }
        i = i + 1;
    }
    assert(msg_views(v@).take(v.len() as int) =~= msg_views(v@));
    r
}

/// A copy of a session.
pub fn copy_session(s: &LanguageSession) -> (r: LanguageSession)
    ensures
        session_view(r) == session_view(*s),
{
    LanguageSession {
        id: s.id.clone(),
        dil: s.dil.clone(),
        seviye: s.seviye.clone(),
        senaryo: s.senaryo.clone(),
        mesajlar: copy_messages(&s.mesajlar),
        son_guncelleme: s.son_guncelleme.clone(),
    }
}

// ---------------------------------------------------------------------
// Operations
// ---------------------------------------------------------------------

/// Starts a new session with no messages, adds it after the others and
/// returns it.
pub fn create_language_session_at(
    all: &mut Vec<LanguageSession>,
    id: String,
    dil: String,
    seviye: String,
    senaryo: String,
    now: String,
) -> (r: LanguageSession)
    ensures
        session_view(r) == (id@, dil@, seviye@, senaryo@, Seq::<(Seq<char>, Seq<char>)>::empty(), now@),
        session_views(final(all)@) == session_views(old(all)@).push(session_view(r)),
{
    let session = LanguageSession { id, dil, seviye, senaryo, mesajlar: Vec::new(), son_guncelleme: now };
    proof {
        assert(msg_views(session.mesajlar@) =~= Seq::<(Seq<char>, Seq<char>)>::empty());
    }
    let copy = copy_session(&session);
    let ghost before = session_views(all@);
    all.push(session);
    proof {
        assert(session_views(all@) =~= before.push(session_view(copy)));
    }
    copy
}

/// Position of the first session with id `id`.
fn position(all: &Vec<LanguageSession>, id: &str) -> (r: Option<usize>)
    ensures
        match r {
            Some(i) => i < all@.len() && find_session(session_views(all@), id@) == i,
            None => find_session(session_views(all@), id@) == -1,
        },
{
    let ghost v = session_views(all@);
    let mut i: usize = 0;
    assert(v.skip(0) =~= v);
    while i < all.len()
        invariant
            i <= all@.len(),
            v == session_views(all@),
            find_session(v, id@) == (if find_session(v.skip(i as int), id@) < 0 {
                -1
            } else {
                find_session(v.skip(i as int), id@) + i
            }),
        decreases all.len() - i,
    {
        proof {
            let t = v.skip(i as int);
            assert(t[0] == v[i as int]);
            assert(t.drop_first() =~= v.skip(i + 1));
        }
        if str_eq(all[i].id.as_str(), id) {
            return Some(i);
        }
        i = i + 1;
    }
    proof {
        assert(v.skip(i as int).len() == 0);
    }
    None
}

fn not_found() -> (r: String)
    ensures
        r@ == "Oturum bulunamadı."@,
{
    "Oturum bulunamadı.".to_owned()
}

/// Replaces the whole message history of the session `id` and records the
/// time; refused when there is no such session.
pub fn save_language_session_at(
    all: &mut Vec<LanguageSession>,
    id: &str,
    mesajlar: Vec<LanguageMessage>,
    now: String,
) -> (r: Result<(), String>)
    ensures
        match change_first(session_views(old(all)@), id@, set_messages(msg_views(mesajlar@), now@)) {
            Some(v) => r is Ok && session_views(final(all)@) == v,
            None => r is Err && r->Err_0@ == "Oturum bulunamadı."@ && final(all)@ == old(all)@,
        },
{
    match position(all, id) {
        Some(i) => {
            let ghost before = all@;
            let mut s = all.remove(i);
            proof {
                assert(s == before[i as int]);
            }
            s.mesajlar = mesajlar;
            s.son_guncelleme = now;
            let ghost s1 = s;
            all.insert(i, s);
            proof {
                assert(all@ =~= before.update(i as int, s1));
                assert(session_views(all@) =~= session_views(before).update(
                    i as int,
                    set_messages(msg_views(mesajlar@), now@)(session_views(before)[i as int]),
                ));
            }
            Ok(())
        },
        None => Err(not_found()),
    }
}

/// Sets the level and scenario of the session `id` (once the placement
/// test has found the level) and records the time; refused when there is
/// no such session.
pub fn update_language_session_meta_at(
    all: &mut Vec<LanguageSession>,
    id: &str,
    seviye: String,
    senaryo: String,
    now: String,
) -> (r: Result<(), String>)
    ensures
        match change_first(session_views(old(all)@), id@, set_meta(seviye@, senaryo@, now@)) {
            Some(v) => r is Ok && session_views(final(all)@) == v,
            None => r is Err && r->Err_0@ == "Oturum bulunamadı."@ && final(all)@ == old(all)@,
        },
{
    match position(all, id) {
        Some(i) => {
            let ghost before = all@;
            let ghost sv = seviye@;
            let ghost sc = senaryo@;
            let ghost nw = now@;
            let mut s = all.remove(i);
            proof {
                assert(s == before[i as int]);
            }
            s.seviye = seviye;
            s.senaryo = senaryo;
            s.son_guncelleme = now;
            let ghost s1 = s;
            all.insert(i, s);
            proof {
                assert(all@ =~= before.update(i as int, s1));
                assert(session_views(all@) =~= session_views(before).update(
                    i as int,
                    set_meta(sv, sc, nw)(session_views(before)[i as int]),
                ));
            }
            Ok(())
        },
        None => Err(not_found()),
    }
}

/// Sets the level of the session `id` and records the time; refused when
/// there is no such session.
pub fn update_language_session_level_at(
    all: &mut Vec<LanguageSession>,
    id: &str,
    seviye: String,
    now: String,
) -> (r: Result<(), String>)
    ensures
        match change_first(session_views(old(all)@), id@, set_level(seviye@, now@)) {
            Some(v) => r is Ok && session_views(final(all)@) == v,
            None => r is Err && r->Err_0@ == "Oturum bulunamadı."@ && final(all)@ == old(all)@,
        },
{
    match position(all, id) {
        Some(i) => {
            let ghost before = all@;
            let ghost sv = seviye@;
            let ghost nw = now@;
            let mut s = all.remove(i);
            proof {
                assert(s == before[i as int]);
            }
            s.seviye = seviye;
            s.son_guncelleme = now;
            let ghost s1 = s;
            all.insert(i, s);
            proof {
                assert(all@ =~= before.update(i as int, s1));
                assert(session_views(all@) =~= session_views(before).update(
                    i as int,
                    set_level(sv, nw)(session_views(before)[i as int]),
                ));
            }
            Ok(())
        },
        None => Err(not_found()),
    }
}

/// Removes every session with id `id`; the others keep their order.
pub fn delete_language_session(all: &mut Vec<LanguageSession>, id: &str)
    ensures
        session_views(final(all)@) == without(session_views(old(all)@), id@),
{
    let ghost v = session_views(all@);
    let mut kept: Vec<LanguageSession> = Vec::new();
    let mut i: usize = 0;
    while i < all.len()
        invariant
            i <= all@.len(),
            v == session_views(all@),
            session_views(kept@) == without(v.take(i as int), id@),
        decreases all.len() - i,
    {
        proof {
            assert(v.take(i + 1) =~= v.take(i as int).push(v[i as int]));
            v.take(i as int).lemma_filter_push(v[i as int], id_is_not(id@));
        }
        if !str_eq(all[i].id.as_str(), id) {
            let ghost k0 = session_views(kept@);
            kept.push(copy_session(&all[i]));
            proof {
                assert(session_views(kept@) =~= k0.push(v[i as int]));
            }
        }
        i = i + 1;
    }
    proof {
        assert(v.take(all.len() as int) =~= v);
    }
    *all = kept;
}

/// Whether `a` comes before `b` as `String`s compare.
fn text_lt(a: &Vec<char>, b: &Vec<char>) -> (r: bool)
    ensures
        r == text_less(a@, b@),
{
    let mut i: usize = 0;
    assert(a@.skip(0) =~= a@);
    assert(b@.skip(0) =~= b@);
    while i < a.len() && i < b.len() && a[i] == b[i]
        invariant
            i <= a.len(),
            i <= b.len(),
            a@.take(i as int) == b@.take(i as int),
            text_less(a@, b@) == text_less(a@.skip(i as int), b@.skip(i as int)),
        decreases a.len() - i,
    {
        proof {
            let x = a@.skip(i as int);
            let y = b@.skip(i as int);
            assert(x[0] == y[0]);
            assert(x.drop_first() =~= a@.skip(i + 1));
            assert(y.drop_first() =~= b@.skip(i + 1));
            assert(a@.take(i + 1) =~= a@.take(i as int).push(a@[i as int]));
            assert(b@.take(i + 1) =~= b@.take(i as int).push(b@[i as int]));
        }
        i = i + 1;
    }
    proof {
        let x = a@.skip(i as int);
        let y = b@.skip(i as int);
        if i < a.len() && i < b.len() {
            assert(x[0] == a@[i as int]);
            assert(y[0] == b@[i as int]);
        }
    }
    if i == a.len() {
        i < b.len()
    } else if i == b.len() {
        false
    } else {
        (a[i] as u32) < (b[i] as u32)
    }
}

proof fn lemma_insert_time_at(s: Seq<SessionView>, x: SessionView, j: int)
    requires
        0 <= j <= s.len(),
        forall|k: int| j <= k < s.len() ==> text_less(#[trigger] s[k].5, x.5),
        j == 0 || !text_less(s[j - 1].5, x.5),
    ensures
        insert_by_time(s, x) == s.take(j) + seq![x] + s.skip(j),
    decreases s.len() - j,
{
    if s.len() == 0 {
        assert(s.take(j) + seq![x] + s.skip(j) =~= seq![x]);
    } else if j == s.len() {
        assert(s.take(j) + seq![x] + s.skip(j) =~= s.push(x));
    } else {
        let d = s.drop_last();
        assert(text_less(s[s.len() - 1].5, x.5));
        lemma_insert_time_at(d, x, j);
        assert(d.take(j) + seq![x] + d.skip(j) + seq![s.last()] =~= s.take(j) + seq![x] + s.skip(j));
    }
}

/// The sessions, most recently updated first; sessions updated at the same
/// time keep their order.
pub fn list_language_sessions(all: Vec<LanguageSession>) -> (r: Vec<LanguageSession>)
    ensures
        session_views(r@) == newest_first(session_views(all@)),
{
    let ghost orig = all@;
    let ghost ov = session_views(orig);
    let mut rest = all;
    let mut out: Vec<LanguageSession> = Vec::new();
    let mut keys: Vec<Vec<char>> = Vec::new();
    let mut k: usize = 0;
    assert(orig.len() == rest.len());
    proof {
        assert(ov.take(0) =~= Seq::<SessionView>::empty());
        assert(orig.skip(0) =~= orig);
    }
    while rest.len() > 0
        invariant
            k <= orig.len(),
            orig.len() <= usize::MAX,
            ov == session_views(orig),
            rest@ == orig.skip(k as int),
            session_views(out@) == newest_first(ov.take(k as int)),
            keys@.len() == out@.len(),
            forall|t: int| 0 <= t < keys@.len() ==> (#[trigger] keys@[t])@ == out@[t].son_guncelleme@,
        decreases rest.len(),
    {
        let x = rest.remove(0);
        proof {
            assert(x == orig[k as int]);
            assert(orig.skip(k as int).remove(0) =~= orig.skip(k + 1));
            assert(ov.take(k + 1).drop_last() =~= ov.take(k as int));
            assert(ov.take(k + 1).last() == session_view(x));
        }
        let xk = crate::text::to_chars(x.son_guncelleme.as_str());
        let mut j = out.len();
        while j > 0 && text_lt(&keys[j - 1], &xk)
            invariant
                j <= out.len(),
                keys@.len() == out@.len(),
                forall|t: int| 0 <= t < keys@.len() ==> (#[trigger] keys@[t])@ == out@[t].son_guncelleme@,
                xk@ == x.son_guncelleme@,
                forall|t: int| j <= t < out.len() ==> text_less(#[trigger] out@[t].son_guncelleme@, x.son_guncelleme@),
            decreases j,
        {
            j = j - 1;
        }
        let ghost ow = session_views(out@);
        proof {
            assert forall|t: int| j <= t < ow.len() implies text_less(#[trigger] ow[t].5, session_view(x).5) by {
                assert(ow[t].5 == out@[t].son_guncelleme@);
            }
            if j > 0 {
                assert(keys@[j - 1]@ == out@[j - 1].son_guncelleme@);
            }
            lemma_insert_time_at(ow, session_view(x), j as int);
        }
        let ghost keys0 = keys@;
        let ghost out0 = out@;
        out.insert(j, x);
        keys.insert(j, xk);
        proof {
            assert(session_views(out@) =~= ow.take(j as int) + seq![session_view(out@[j as int])] + ow.skip(j as int));
            assert forall|t: int| 0 <= t < keys@.len() implies (#[trigger] keys@[t])@ == out@[t].son_guncelleme@ by {
                if t < j {
                    assert(keys@[t] == keys0[t]);
                    assert(out@[t] == out0[t]);
                } else if t > j {
                    assert(keys@[t] == keys0[t - 1]);
                    assert(out@[t] == out0[t - 1]);
                }
            }
        }
        k = k + 1;
    }
    proof {
        assert(ov.take(k as int) =~= ov);
    }
    out
}

// ---------------------------------------------------------------------
// Operations at the current time
// ---------------------------------------------------------------------

/// Starts a new session under a fresh random id, at the current time; when
/// the random source fails, nothing changes and the refusal is returned.
pub fn create_language_session(all: &mut Vec<LanguageSession>, dil: String, seviye: String, senaryo: String) -> (r:
    Result<LanguageSession, String>)
    ensures
        r matches Ok(s) ==> s.id@.len() == 36 && s.dil@ == dil@ && s.seviye@ == seviye@ && s.senaryo@ == senaryo@
            && msg_views(s.mesajlar@).len() == 0 && session_views(final(all)@) == session_views(old(all)@).push(
            session_view(s),
        ),
        r matches Err(e) ==> starts_with(e@, random_failure_prefix()) && final(all)@ == old(all)@,
{
    let id = new_uuid()?;
    let now = now_rfc3339();
    Ok(create_language_session_at(all, id, dil, seviye, senaryo, now))
}

/// Replaces the message history of the session `id`, stamped with the
/// current time (see [`save_language_session_at`]).
pub fn save_language_session(all: &mut Vec<LanguageSession>, id: &str, mesajlar: Vec<LanguageMessage>) -> (r:
    Result<(), String>)
    ensures
        find_session(session_views(old(all)@), id@) < 0 ==> r is Err && r->Err_0@ == "Oturum bulunamadı."@
            && final(all)@ == old(all)@,
        find_session(session_views(old(all)@), id@) >= 0 ==> r is Ok && exists|now: Seq<char>|
            change_first(session_views(old(all)@), id@, set_messages(msg_views(mesajlar@), now)) == Some(
                session_views(final(all)@),
            ),
{
    let now = now_rfc3339();
    let ghost nv = now@;
    let r = save_language_session_at(all, id, mesajlar, now);
    proof {
        if find_session(session_views(old(all)@), id@) >= 0 {
            assert(change_first(session_views(old(all)@), id@, set_messages(msg_views(mesajlar@), nv)) == Some(
                session_views(all@),
            ));
        }
    }
    r
}

/// Sets level and scenario of the session `id`, stamped with the current
/// time (see [`update_language_session_meta_at`]).
pub fn update_language_session_meta(all: &mut Vec<LanguageSession>, id: &str, seviye: String, senaryo: String) -> (r:
    Result<(), String>)
    ensures
        find_session(session_views(old(all)@), id@) < 0 ==> r is Err && r->Err_0@ == "Oturum bulunamadı."@
            && final(all)@ == old(all)@,
        find_session(session_views(old(all)@), id@) >= 0 ==> r is Ok && exists|now: Seq<char>|
            change_first(session_views(old(all)@), id@, set_meta(seviye@, senaryo@, now)) == Some(
                session_views(final(all)@),
            ),
{
    let now = now_rfc3339();
    let ghost nv = now@;
    let ghost sv = seviye@;
    let ghost sc = senaryo@;
    let r = update_language_session_meta_at(all, id, seviye, senaryo, now);
    proof {
        if find_session(session_views(old(all)@), id@) >= 0 {
            assert(change_first(session_views(old(all)@), id@, set_meta(sv, sc, nv)) == Some(session_views(all@)));
        }
    }
    r
}

/// Sets the level of the session `id`, stamped with the current time (see
/// [`update_language_session_level_at`]).
pub fn update_language_session_level(all: &mut Vec<LanguageSession>, id: &str, seviye: String) -> (r: Result<
    (),
    String,
>)
    ensures
        find_session(session_views(old(all)@), id@) < 0 ==> r is Err && r->Err_0@ == "Oturum bulunamadı."@
            && final(all)@ == old(all)@,
        find_session(session_views(old(all)@), id@) >= 0 ==> r is Ok && exists|now: Seq<char>|
            change_first(session_views(old(all)@), id@, set_level(seviye@, now)) == Some(session_views(final(all)@)),
{
    let now = now_rfc3339();
    let ghost nv = now@;
    let ghost sv = seviye@;
    let r = update_language_session_level_at(all, id, seviye, now);
    proof {
        if find_session(session_views(old(all)@), id@) >= 0 {
            assert(change_first(session_views(old(all)@), id@, set_level(sv, nv)) == Some(session_views(all@)));
        }
    }
    r
}

// ---------------------------------------------------------------------
// Laws
// ---------------------------------------------------------------------

/// What a save stores is what the session then holds: its messages are the
/// ones saved, its id, language, level and scenario are unchanged, and the
/// other sessions are untouched.
pub proof fn lemma_save_then_read(
    v: Seq<SessionView>,
    id: Seq<char>,
    m: Seq<(Seq<char>, Seq<char>)>,
    now: Seq<char>,
)
    requires
        find_session(v, id) >= 0,
    ensures
        change_first(v, id, set_messages(m, now)) matches Some(w) && w.len() == v.len() && {
            let k = find_session(v, id);
            &&& w[k].4 == m
            &&& w[k].0 == id && w[k].1 == v[k].1 && w[k].2 == v[k].2 && w[k].3 == v[k].3
            &&& forall|j: int| 0 <= j < v.len() && j != k ==> w[j] == v[j]
        },
{
    lemma_find_session_valid(v, id);
}

/// A deleted session is gone, and nothing else is.
pub proof fn lemma_delete_removes(v: Seq<SessionView>, id: Seq<char>)
    ensures
        find_session(without(v, id), id) == -1,
        forall|s: SessionView| s.0 != id ==> (v.contains(s) <==> without(v, id).contains(s)),
{
    let w = without(v, id);
    let p = id_is_not(id);
    assert forall|i: int| 0 <= i < w.len() implies (#[trigger] w[i]).0 != id by {
        v.lemma_filter_pred(p, i);
    }
    lemma_find_session_absent(w, id);
    assert forall|s: SessionView| s.0 != id implies (v.contains(s) <==> w.contains(s)) by {
        if v.contains(s) {
            let i = choose|i: int| 0 <= i < v.len() && v[i] == s;
            v.lemma_filter_contains(p, i);
        }
        if w.contains(s) {
            v.lemma_filter_contains_rev(p, s);
        }
    }
}

/// Listing puts the most recently updated session first (no session comes
/// after one updated earlier) and loses none, each as often as before.
pub proof fn lemma_newest_first(s: Seq<SessionView>)
    ensures
        newest_descending(newest_first(s)),
        newest_first(s).to_multiset() == s.to_multiset(),
    decreases s.len(),
{
    if s.len() > 0 {
        lemma_newest_first(s.drop_last());
        lemma_insert_time_keeps(newest_first(s.drop_last()), s.last());
        broadcast use vstd::seq_lib::group_seq_properties;
        assert(s =~= s.drop_last().push(s.last()));
    }
}

/// No session is followed by one updated later.
pub open spec fn newest_descending(s: Seq<SessionView>) -> bool {
    forall|i: int, j: int| 0 <= i < j < s.len() ==> !text_less(s[i].5, s[j].5)
}

proof fn lemma_text_less_asym(a: Seq<char>, b: Seq<char>)
    ensures
        text_less(a, b) ==> !text_less(b, a),
    decreases a.len(),
{
    if a.len() > 0 && b.len() > 0 && a[0] == b[0] {
        lemma_text_less_asym(a.drop_first(), b.drop_first());
    }
}

proof fn lemma_text_less_total(a: Seq<char>, b: Seq<char>)
    ensures
        a != b ==> text_less(a, b) || text_less(b, a),
    decreases a.len(),
{
    if a.len() == 0 && b.len() == 0 {
        assert(a =~= b);
    } else if a.len() > 0 && b.len() > 0 {
        if a[0] == b[0] {
            lemma_text_less_total(a.drop_first(), b.drop_first());
            if a.drop_first() == b.drop_first() {
                assert(a =~= seq![a[0]] + a.drop_first());
                assert(b =~= seq![b[0]] + b.drop_first());
            }
        } else {
            if (a[0] as u32) == (b[0] as u32) {
                vstd::utf8::char_u32_cast(a[0], a[0] as u32);
                vstd::utf8::char_u32_cast(b[0], b[0] as u32);
            }
        }
    }
}

proof fn lemma_text_less_trans(a: Seq<char>, b: Seq<char>, c: Seq<char>)
    ensures
        text_less(a, b) && text_less(b, c) ==> text_less(a, c),
    decreases a.len(),
{
    if a.len() > 0 && b.len() > 0 && c.len() > 0 && a[0] == b[0] && b[0] == c[0] {
        lemma_text_less_trans(a.drop_first(), b.drop_first(), c.drop_first());
    }
}

/// "Not earlier" is transitive.
proof fn lemma_text_ge_trans(a: Seq<char>, b: Seq<char>, c: Seq<char>)
    ensures
        !text_less(a, b) && !text_less(b, c) ==> !text_less(a, c),
{
    lemma_text_less_total(a, b);
    lemma_text_less_total(b, c);
    lemma_text_less_trans(c, b, a);
    lemma_text_less_asym(a, c);
    lemma_text_less_trans(a, b, c);
    if !text_less(a, b) && !text_less(b, c) {
        if a == b {
        } else if b == c {
        } else {
            assert(text_less(b, a));
            assert(text_less(c, b));
            assert(text_less(c, a));
        }
    }
}

proof fn lemma_insert_time_keeps(s: Seq<SessionView>, x: SessionView)
    requires
        newest_descending(s),
    ensures
        newest_descending(insert_by_time(s, x)),
        insert_by_time(s, x).to_multiset() == s.to_multiset().insert(x),
        insert_by_time(s, x).len() == s.len() + 1,
        forall|i: int|
            0 <= i < insert_by_time(s, x).len() ==> #[trigger] insert_by_time(s, x)[i] == x || s.contains(
                insert_by_time(s, x)[i],
            ),
    decreases s.len(),
{
    broadcast use vstd::seq_lib::group_seq_properties;
    if s.len() == 0 {
        assert(seq![x] =~= Seq::<SessionView>::empty().push(x));
    } else if !text_less(s.last().5, x.5) {
        let r = s.push(x);
        assert forall|i: int, j: int| 0 <= i < j < r.len() implies !text_less(r[i].5, r[j].5) by {
            if j == s.len() {
                lemma_text_ge_trans(s[i].5, s.last().5, x.5);
            }
        }
    } else {
        let d = s.drop_last();
        lemma_insert_time_keeps(d, x);
        let r = insert_by_time(d, x);
        assert(s =~= d.push(s.last()));
        assert forall|i: int| 0 <= i < r.len() implies !text_less(#[trigger] r[i].5, s.last().5) by {
            if r[i] == x {
                lemma_text_less_asym(s.last().5, x.5);
            } else {
                assert(d.contains(r[i]));
                let k = choose|k: int| 0 <= k < d.len() && d[k] == r[i];
                assert(s[k] == d[k]);
            }
        }
        let r2 = r.push(s.last());
        assert forall|i: int, j: int| 0 <= i < j < r2.len() implies !text_less(r2[i].5, r2[j].5) by {
            if j == r.len() {
                assert(r2[i] == r[i]);
            } else {
                assert(r2[i] == r[i] && r2[j] == r[j]);
            }
        }
        assert forall|i: int| 0 <= i < r2.len() implies #[trigger] r2[i] == x || s.contains(r2[i]) by {
            if i < r.len() {
                if r[i] != x {
                    assert(d.contains(r[i]));
                    let k = choose|k: int| 0 <= k < d.len() && d[k] == r[i];
                    assert(s[k] == d[k]);
                }
            } else {
                assert(s[s.len() - 1] == s.last());
            }
        }
    }
}

proof fn lemma_find_session_valid(v: Seq<SessionView>, id: Seq<char>)
    ensures
        -1 <= find_session(v, id) < v.len(),
        find_session(v, id) >= 0 ==> v[find_session(v, id)].0 == id,
    decreases v.len(),
{
    if v.len() > 0 && v[0].0 != id {
        lemma_find_session_valid(v.drop_first(), id);
    }
}

proof fn lemma_find_session_absent(v: Seq<SessionView>, id: Seq<char>)
    requires
        forall|i: int| 0 <= i < v.len() ==> (#[trigger] v[i]).0 != id,
    ensures
        find_session(v, id) == -1,
    decreases v.len(),
{
    if v.len() > 0 {
        let t = v.drop_first();
        assert forall|i: int| 0 <= i < t.len() implies (#[trigger] t[i]).0 != id by {
            assert(t[i] == v[i + 1]);
        }
        lemma_find_session_absent(t, id);
    }
}

} // verus!
