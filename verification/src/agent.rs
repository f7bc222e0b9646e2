//! Workflows: a natural-language request becomes a plan made of known steps
//! only (the model merely picks step ids), and a confirmed plan runs step
//! after step, the file produced by one step handed to the next by the
//! library, never by the model.
use crate::json::{message_content, spec_json_valid, spec_message_content, string_list, spec_string_list};
use crate::text::{append_str, char_is, find_first, join, join_strings, lemma_find_first_at, lemma_find_first_none, str_views, string_of_range, to_chars};
use vstd::prelude::*;

verus! {

/// One step of a plan, as shown to the user.
pub struct PlanStep {
    pub id: String,
    pub label: String,
}

/// Where a running workflow stands: the file the next step works on, and
/// the subtitles produced so far.
pub struct Workflow {
    pub current_path: String,
    pub srt_path: Option<String>,
}

/// What the next step asks for.
pub enum StepAction {
    /// Produce Turkish subtitles for `input` with the local engine.
    Subtitle { input: String, engine: String, libretranslate_url: String, vad_model_path: String },
    /// Dub `video` from the subtitles `srt`.
    Dub { video: String, srt: String },
    /// Upscale `input` by `scale`.
    Upscale { input: String, scale: u32 },
    /// The step cannot run; the workflow fails with `error`.
    Fail { error: String },
}

// ---------------------------------------------------------------------
// Specifications
// ---------------------------------------------------------------------

/// The known steps: `(id, label)`.
pub open spec fn known_steps() -> Seq<(Seq<char>, Seq<char>)> {
    seq![
        ("subtitle"@, "Türkçe altyazı üret (whisper.cpp + yerel model çevirisi)"@),
        ("dub"@, "Türkçe dublaj üret (Piper TTS)"@),
        ("upscale"@, "Video kalitesini artır (Video2X)"@),
    ]
}

/// The label of a known step id.
pub open spec fn step_label(id: Seq<char>) -> Option<Seq<char>> {
    if id == "subtitle"@ {
        Some(known_steps()[0].1)
    } else if id == "dub"@ {
        Some(known_steps()[1].1)
    } else if id == "upscale"@ {
        Some(known_steps()[2].1)
    } else {
        None
    }
}

/// The plan made of the ids the model picked: unknown ids are dropped,
/// the order and repetitions of the others kept.
pub open spec fn plan_of(ids: Seq<Seq<char>>) -> Seq<(Seq<char>, Seq<char>)>
    decreases ids.len(),
{
    if ids.len() == 0 {
        Seq::empty()
    } else {
        let r = plan_of(ids.drop_last());
        match step_label(ids.last()) {
            Some(l) => r.push((ids.last(), l)),
            None => r,
        }
    }
}

/// A plan step as plain values.
pub open spec fn step_view(s: PlanStep) -> (Seq<char>, Seq<char>) {
    (s.id@, s.label@)
}

/// Plan steps as plain values.
pub open spec fn step_views(v: Seq<PlanStep>) -> Seq<(Seq<char>, Seq<char>)> {
    v.map_values(|s: PlanStep| step_view(s))
}

/// The list of known steps offered to the model: `"id" (label)`, joined
/// with `, `.
pub open spec fn vocabulary() -> Seq<char> {
    join(known_steps().map_values(|s: (Seq<char>, Seq<char>)| "\""@ + s.0 + "\" ("@ + s.1 + ")"@), ", "@)
}

pub open spec fn plan_prompt_head() -> &'static str {
    "Kullanıcının isteği: \""
}

pub open spec fn plan_prompt_middle() -> &'static str {
    "\"\n\nYalnızca şu adımlardan uygun olanları, doğru sırayla seç: "
}

pub open spec fn plan_prompt_tail() -> &'static str {
    ".\nSADECE bir JSON dizisi döndür, örnek: [\"subtitle\", \"dub\", \"upscale\"]. Başka hiçbir açıklama, önsöz ya da metin ekleme. İstekte geçmeyen bir adımı asla ekleme. 'dub' (dublaj) her zaman 'subtitle'dan (altyazı) sonra gelmeli çünkü dublaj altyazıya ihtiyaç duyar."
}

/// The request that asks the model for a plan.
pub open spec fn plan_prompt_spec(goal: Seq<char>) -> Seq<char> {
    plan_prompt_head()@ + goal + plan_prompt_middle()@ + vocabulary() + plan_prompt_tail()@
}

/// Index of the last `c` in `s`, or -1.
pub open spec fn last_of(s: Seq<char>, c: char) -> int
    decreases s.len(),
{
    if s.len() == 0 {
        -1
    } else if s.last() == c {
        s.len() - 1
    } else {
        last_of(s.drop_last(), c)
    }
}

/// Whether the model's reply can be cut at its brackets: the first `[`
/// comes at most one place after the last `]` (when it comes right after,
/// the piece between them is empty and does not parse).
pub open spec fn brackets_ordered(s: Seq<char>) -> bool {
    let a = find_first(s, char_is('['));
    let b = last_of(s, ']');
    a >= 0 && b >= 0 ==> a <= b + 1
}

pub open spec fn no_plan_error() -> &'static str {
    "Model geçerli bir plan üretemedi, tekrar dene ya da isteğini daha açık yaz."
}

pub open spec fn empty_plan_error() -> &'static str {
    "İstekten bilinen bir iş akışı adımı çıkarılamadı. Şu an desteklenen adımlar: altyazı, dublaj, kalite artırma. Daha açık yazmayı dene (ör. 'altyazı üret ve 4K yap')."
}

/// The plan read from the model's reply text: the JSON list between the
/// first `[` and the last `]`, its unknown ids dropped.
pub open spec fn plan_from_reply_spec(s: Seq<char>) -> Result<Seq<(Seq<char>, Seq<char>)>, Seq<char>> {
    let a = find_first(s, char_is('['));
    let b = last_of(s, ']');
    if a < 0 || b < 0 {
        Err(no_plan_error()@)
    } else {
        match spec_string_list(s.subrange(a, b + 1)) {
            None => Err("Plan çözümlenemedi, tekrar dene."@),
            Some(ids) => if plan_of(ids).len() == 0 {
                Err(empty_plan_error()@)
            } else {
                Ok(plan_of(ids))
            },
        }
    }
}

/// A workflow as plain values.
pub open spec fn wf_view(w: Workflow) -> (Seq<char>, Option<Seq<char>>) {
    (w.current_path@, crate::json::opt_str(w.srt_path))
}

/// What a step asks for, as plain values.
pub enum ActionView {
    Subtitle { input: Seq<char>, engine: Seq<char>, url: Seq<char>, vad: Seq<char> },
    Dub { video: Seq<char>, srt: Seq<char> },
    Upscale { input: Seq<char>, scale: u32 },
    Fail { error: Seq<char> },
}

/// An action as plain values.
pub open spec fn action_view(a: StepAction) -> ActionView {
    match a {
        StepAction::Subtitle { input, engine, libretranslate_url, vad_model_path } => ActionView::Subtitle {
            input: input@,
            engine: engine@,
            url: libretranslate_url@,
            vad: vad_model_path@,
        },
        StepAction::Dub { video, srt } => ActionView::Dub { video: video@, srt: srt@ },
        StepAction::Upscale { input, scale } => ActionView::Upscale { input: input@, scale },
        StepAction::Fail { error } => ActionView::Fail { error: error@ },
    }
}

/// What step `step` asks for in the state `(current, srt)`: subtitles of
/// the current file with the local engine; a dub of the current file from
/// the subtitles produced before, which must exist; a 2x upscale of the
/// current file; anything else fails.
pub open spec fn action_of(w: (Seq<char>, Option<Seq<char>>), step: Seq<char>) -> ActionView {
    if step == "subtitle"@ {
        ActionView::Subtitle { input: w.0, engine: "ollama"@, url: "http://127.0.0.1:5000"@, vad: Seq::empty() }
    } else if step == "dub"@ {
        match w.1 {
            None => ActionView::Fail { error: "Önce altyazı üretilmeli (plan sırası hatalı)."@ },
            Some(srt) => ActionView::Dub { video: w.0, srt },
        }
    } else if step == "upscale"@ {
        ActionView::Upscale { input: w.0, scale: 2 }
    } else {
        ActionView::Fail { error: "Bilinmeyen adım: "@ + step }
    }
}

/// The state after step `step` produced `output`: subtitles are kept for
/// a later dub; a dub or an upscale gives the file the next step works on.
pub open spec fn after_step(w: (Seq<char>, Option<Seq<char>>), step: Seq<char>, output: Seq<char>) -> (
    Seq<char>,
    Option<Seq<char>>,
) {
    if step == "subtitle"@ {
        (w.0, Some(output))
    } else if step == "dub"@ || step == "upscale"@ {
        (output, w.1)
    } else {
        w
    }
}

/// The state after the steps `steps` produced `outputs` one by one,
/// starting from `input`.
pub open spec fn run_steps(input: Seq<char>, steps: Seq<Seq<char>>, outputs: Seq<Seq<char>>) -> (
    Seq<char>,
    Option<Seq<char>>,
)
    decreases steps.len(),
{
    if steps.len() == 0 {
        (input, None)
    } else {
        after_step(
            run_steps(input, steps.drop_last(), outputs.drop_last()),
            steps.last(),
            outputs.last(),
        )
    }
}

// ---------------------------------------------------------------------
// Planning
// ---------------------------------------------------------------------

/// The known steps, `(id, label)`.
fn known_step_list() -> (r: Vec<(&'static str, &'static str)>)
    ensures
        r@.len() == 3,
        forall|i: int| 0 <= i < 3 ==> (#[trigger] r@[i]).0@ == known_steps()[i].0 && r@[i].1@ == known_steps()[i].1,
{
    let r = vec![
        ("subtitle", "Türkçe altyazı üret (whisper.cpp + yerel model çevirisi)"),
        ("dub", "Türkçe dublaj üret (Piper TTS)"),
        ("upscale", "Video kalitesini artır (Video2X)"),
    ];
    r
}

/// The label of a known step id.
fn known_label(id: &str) -> (r: Option<&'static str>)
    ensures
        match r {
            Some(l) => step_label(id@) == Some(l@),
            None => step_label(id@) is None,
        },
{
    let steps = known_step_list();
    let v = to_chars(id);
    let mut i: usize = 0;
    while i < steps.len()
        invariant
            steps@.len() == 3,
            forall|j: int| 0 <= j < 3 ==> (#[trigger] steps@[j]).0@ == known_steps()[j].0 && steps@[j].1@ == known_steps()[j].1,
            v@ == id@,
            i <= 3,
            forall|j: int| 0 <= j < i ==> id@ != known_steps()[j].0,
        decreases 3 - i,
    {
        let (k, l) = steps[i];
        if crate::text::str_eq(k, id) {
            return Some(l);
        }
        i = i + 1;
    }
    None
}

/// The plan made of the ids the model picked, unknown ids dropped.
pub fn plan_steps(ids: &Vec<String>) -> (r: Vec<PlanStep>)
    ensures
        step_views(r@) == plan_of(str_views(ids@)),
{
    let mut out: Vec<PlanStep> = Vec::new();
    let mut i: usize = 0;
    while i < ids.len()
        invariant
            i <= ids.len(),
            step_views(out@) == plan_of(str_views(ids@).take(i as int)),
        decreases ids.len() - i,
    {
        let ghost t = str_views(ids@).take(i + 1);
        proof {
            assert(t.drop_last() =~= str_views(ids@).take(i as int));
            assert(t.last() == ids@[i as int]@);
        }
        let ghost before = out@;
        match known_label(ids[i].as_str()) {
            Some(l) => {
                out.push(PlanStep { id: ids[i].clone(), label: l.to_owned() });
                proof {
                    assert(step_views(out@) =~= step_views(before).push((ids@[i as int]@, l@)));
                }
            },
            None => {},
        }
        i = i + 1;
    }
    proof {
        assert(str_views(ids@).take(ids.len() as int) =~= str_views(ids@));
    }
    out
}

fn plan_prompt_head_text() -> (s: &'static str)
    ensures
        s@ == plan_prompt_head()@,
{
    "Kullanıcının isteği: \""
}

fn plan_prompt_middle_text() -> (s: &'static str)
    ensures
        s@ == plan_prompt_middle()@,
{
    "\"\n\nYalnızca şu adımlardan uygun olanları, doğru sırayla seç: "
}

fn plan_prompt_tail_text() -> (s: &'static str)
    ensures
        s@ == plan_prompt_tail()@,
{
    ".\nSADECE bir JSON dizisi döndür, örnek: [\"subtitle\", \"dub\", \"upscale\"]. Başka hiçbir açıklama, önsöz ya da metin ekleme. İstekte geçmeyen bir adımı asla ekleme. 'dub' (dublaj) her zaman 'subtitle'dan (altyazı) sonra gelmeli çünkü dublaj altyazıya ihtiyaç duyar."
}

/// The request that asks the model to turn `goal` into a plan.
pub fn plan_prompt(goal: &str) -> (r: String)
    ensures
        r@ == plan_prompt_spec(goal@),
{
    let steps = known_step_list();
    let mut items: Vec<String> = Vec::new();
    let mut i: usize = 0;
    let ghost quoted = known_steps().map_values(
        |s: (Seq<char>, Seq<char>)| "\""@ + s.0 + "\" ("@ + s.1 + ")"@,
    );
    while i < steps.len()
        invariant
            steps@.len() == 3,
            forall|j: int| 0 <= j < 3 ==> (#[trigger] steps@[j]).0@ == known_steps()[j].0 && steps@[j].1@ == known_steps()[j].1,
            quoted == known_steps().map_values(
                |s: (Seq<char>, Seq<char>)| "\""@ + s.0 + "\" ("@ + s.1 + ")"@,
            ),
            i <= 3,
            str_views(items@) == quoted.take(i as int),
        decreases 3 - i,
    {
        let (k, l) = steps[i];
        let mut item = "\"".to_owned();
        append_str(&mut item, k);
        append_str(&mut item, "\" (");
        append_str(&mut item, l);
        append_str(&mut item, ")");
        let ghost before = items@;
        items.push(item);
        proof {
            assert(str_views(items@) =~= str_views(before).push(quoted[i as int]));
            assert(quoted.take(i + 1) =~= quoted.take(i as int).push(quoted[i as int]));
        }
        i = i + 1;
    }
    proof {
        assert(quoted.take(3) =~= quoted);
    }
    let vocab = join_strings(&items, ", ");
    let mut r = plan_prompt_head_text().to_owned();
    append_str(&mut r, goal);
    append_str(&mut r, plan_prompt_middle_text());
    append_str(&mut r, vocab.as_str());
    append_str(&mut r, plan_prompt_tail_text());
    r
}

/// Index of the last `c` in `v`.
fn last_index_of(v: &Vec<char>, c: char) -> (r: Option<usize>)
    ensures
        match r {
            Some(k) => k < v.len() && last_of(v@, c) == k,
            None => last_of(v@, c) == -1,
        },
{
    let mut k = v.len();
    assert(v@.take(k as int) =~= v@);
    while k > 0
        invariant
            k <= v.len(),
            last_of(v@, c) == last_of(v@.take(k as int), c),
        decreases k,
    {
        if v[k - 1] == c {
            return Some(k - 1);
        }
        assert(v@.take(k as int).drop_last() =~= v@.take(k - 1));
        k = k - 1;
    }
    None
}

/// Index of the first `c` in `v`.
fn first_index_of(v: &Vec<char>, c: char) -> (r: Option<usize>)
    ensures
        match r {
            Some(k) => k < v.len() && find_first(v@, char_is(c)) == k,
            None => find_first(v@, char_is(c)) == -1,
        },
{
    let mut k: usize = 0;
    while k < v.len()
        invariant
            k <= v.len(),
            forall|j: int| 0 <= j < k ==> !char_is(c)(#[trigger] v@[j]),
        decreases v.len() - k,
    {
        if v[k] == c {
            proof {
                lemma_find_first_at(v@, char_is(c), k as int);
            }
            return Some(k);
        }
        k = k + 1;
    }
    proof {
        lemma_find_first_none(v@, char_is(c));
    }
    None
}

fn no_plan_error_text() -> (s: &'static str)
    ensures
        s@ == no_plan_error()@,
{
    "Model geçerli bir plan üretemedi, tekrar dene ya da isteğini daha açık yaz."
}

fn empty_plan_error_text() -> (s: &'static str)
    ensures
        s@ == empty_plan_error()@,
{
    "İstekten bilinen bir iş akışı adımı çıkarılamadı. Şu an desteklenen adımlar: altyazı, dublaj, kalite artırma. Daha açık yazmayı dene (ör. 'altyazı üret ve 4K yap')."
}

/// The plan in the model's reply text: the JSON list of step ids between
/// the first `[` and the last `]`, unknown ids dropped; refused when there
/// is no such list, when it does not parse, and when no known step is
/// left.
pub fn plan_from_reply(content: &str) -> (r: Result<Vec<PlanStep>, String>)
    requires
        brackets_ordered(content@),
    ensures
        match plan_from_reply_spec(content@) {
            Ok(steps) => r is Ok && step_views(r->Ok_0@) == steps,
            Err(e) => r is Err && r->Err_0@ == e,
        },
{
    let v = to_chars(content);
    let a = match first_index_of(&v, '[') {
        Some(a) => a,
        None => {
            return Err(no_plan_error_text().to_owned());
        },
    };
    let b = match last_index_of(&v, ']') {
        Some(b) => b,
        None => {
            return Err(no_plan_error_text().to_owned());
        },
    };
    let slice = string_of_range(&v, a, b + 1);
    match string_list(slice.as_str()) {
        None => Err("Plan çözümlenemedi, tekrar dene.".to_owned()),
        Some(ids) => {
            let steps = plan_steps(&ids);
            if steps.len() == 0 {
                Err(empty_plan_error_text().to_owned())
            } else {
                Ok(steps)
            }
        },
    }
}

/// Whether the reply text can be cut at its brackets (see
/// [`plan_from_reply`]).
pub fn brackets_in_order(content: &str) -> (r: bool)
    ensures
        r == brackets_ordered(content@),
{
    let v = to_chars(content);
    match (first_index_of(&v, '['), last_index_of(&v, ']')) {
        (Some(a), Some(b)) => a <= b + 1,
        _ => true,
    }
}

/// The plan in a reply body of the local engine: its `message.content`
/// (`[]` when it has none) read by [`plan_from_reply`]; a body that is not
/// JSON is refused with the parser's message, and `None` stands for a reply
/// whose last `]` comes before its first `[`.
pub fn plan_from_body(body: &str) -> (r: Option<Result<Vec<PlanStep>, String>>)
    ensures
        !spec_json_valid(body@) ==> (r matches Some(Err(e)) && e@ == crate::json::body_decode_message()),
        spec_json_valid(body@) ==> {
            let content = match spec_message_content(body@) {
                Some(c) => c,
                None => "[]"@,
            };
            if brackets_ordered(content) {
                r matches Some(x) && match plan_from_reply_spec(content) {
                    Ok(steps) => x is Ok && step_views(x->Ok_0@) == steps,
                    Err(e) => x is Err && x->Err_0@ == e,
                }
            } else {
                r is None
            }
        },
{
    match message_content(body) {
        Err(_) => Some(Err(crate::json::body_decode_error())),
        Ok(c) => {
            let content = match c {
                Some(c) => c,
                None => "[]".to_owned(),
            };
            if brackets_in_order(content.as_str()) {
                Some(plan_from_reply(content.as_str()))
            } else {
                None
            }
        },
    }
}

// ---------------------------------------------------------------------
// Running a workflow
// ---------------------------------------------------------------------

/// The refusal of an unconfirmed workflow.
pub fn confirm_workflow(confirmed: bool) -> (r: Result<(), String>)
    ensures
        r is Ok <==> confirmed,
        r matches Err(e) ==> e@ == "Onaylanmamış iş akışı — güvenlik nedeniyle çalıştırılmadı."@,
{
    if confirmed {
        Ok(())
    } else {
        Err("Onaylanmamış iş akışı — güvenlik nedeniyle çalıştırılmadı.".to_owned())
    }
}

/// The title of a workflow's task: its step ids joined with ` → `.
pub fn workflow_title(step_ids: &Vec<String>) -> (r: String)
    ensures
        r@ == "İş akışı: "@ + join(str_views(step_ids@), " → "@),
{
    let mut r = "İş akışı: ".to_owned();
    let list = join_strings(step_ids, " → ");
    append_str(&mut r, list.as_str());
    r
}

/// A workflow about to work on `input_path`, with no subtitles yet.
pub fn workflow_start(input_path: String) -> (r: Workflow)
    ensures
        wf_view(r) == (input_path@, None::<Seq<char>>),
{
    Workflow { current_path: input_path, srt_path: None }
}

/// What step `step` asks for.
pub fn step_action(w: &Workflow, step: &str) -> (r: StepAction)
    ensures
        action_view(r) == action_of(wf_view(*w), step@),
{
    if crate::text::str_eq(step, "subtitle") {
        StepAction::Subtitle {
            input: w.current_path.clone(),
            engine: "ollama".to_owned(),
            libretranslate_url: "http://127.0.0.1:5000".to_owned(),
            vad_model_path: String::new(),
        }
    } else if crate::text::str_eq(step, "dub") {
        match &w.srt_path {
            None => StepAction::Fail { error: "Önce altyazı üretilmeli (plan sırası hatalı).".to_owned() },
            Some(srt) => StepAction::Dub { video: w.current_path.clone(), srt: srt.clone() },
        }
    } else if crate::text::str_eq(step, "upscale") {
        StepAction::Upscale { input: w.current_path.clone(), scale: 2 }
    } else {
        let mut e = "Bilinmeyen adım: ".to_owned();
        append_str(&mut e, step);
        StepAction::Fail { error: e }
    }
}

/// Takes in what step `step` produced.
pub fn step_done(w: &mut Workflow, step: &str, output: String)
    ensures
        wf_view(*final(w)) == after_step(wf_view(*old(w)), step@, output@),
{
    if crate::text::str_eq(step, "subtitle") {
        w.srt_path = Some(output);
    } else if crate::text::str_eq(step, "dub") || crate::text::str_eq(step, "upscale") {
        w.current_path = output;
    }
}

/// The log line written when a step starts.
pub fn step_started_line(step: &str) -> (r: String)
    ensures
        r@ == "▶ "@ + step@ + " başladı"@,
{
    let mut r = "▶ ".to_owned();
    append_str(&mut r, step);
    append_str(&mut r, " başladı");
    r
}

/// The log line written when a step fails.
pub fn step_failed_line(step: &str, error: &str) -> (r: String)
    ensures
        r@ == "✗ "@ + step@ + " hatası: "@ + error@,
{
    let mut r = "✗ ".to_owned();
    append_str(&mut r, step);
    append_str(&mut r, " hatası: ");
    append_str(&mut r, error);
    r
}

/// The log line written when a step is done.
pub fn step_finished_line(step: &str) -> (r: String)
    ensures
        r@ == "✓ "@ + step@ + " tamamlandı"@,
{
    let mut r = "✓ ".to_owned();
    append_str(&mut r, step);
    append_str(&mut r, " tamamlandı");
    r
}

/// The result of a finished workflow.
pub fn workflow_summary(w: &Workflow) -> (r: String)
    ensures
        r@ == "İş akışı tamamlandı. Son dosya: "@ + w.current_path@,
{
    let mut r = "İş akışı tamamlandı. Son dosya: ".to_owned();
    append_str(&mut r, w.current_path.as_str());
    r
}

/// The memory note of a finished workflow.
pub fn workflow_note(step_ids: &Vec<String>, w: &Workflow) -> (r: String)
    ensures
        r@ == "Otomatik iş akışı çalıştırdı ("@ + join(str_views(step_ids@), "→"@) + "): "@ + w.current_path@,
{
    let mut r = "Otomatik iş akışı çalıştırdı (".to_owned();
    let list = join_strings(step_ids, "→");
    append_str(&mut r, list.as_str());
    append_str(&mut r, "): ");
    append_str(&mut r, w.current_path.as_str());
    r
}

// ---------------------------------------------------------------------
// The run loop, one event at a time
// ---------------------------------------------------------------------

/// A workflow being run: where it stands and the index of the next step.
pub struct WorkflowRun {
    pub state: Workflow,
    pub next: usize,
}

/// What the runner hands back after doing what it was asked.
pub enum WorkflowEvent {
    /// Ready for the next step; `cancelled` tells whether the user
    /// cancelled the task meanwhile.
    Ready { cancelled: bool },
    /// The current step produced `output`.
    StepSucceeded { output: String },
    /// The current step failed with `error`.
    StepFailed { error: String },
}

/// What the runner does next.
pub enum WorkflowAction {
    /// Write `log` and carry out `action` for `step`.
    RunStep { step: String, action: StepAction, log: String },
    /// Write `log`: the step is done, `done` of `total` steps are finished.
    StepDone { log: String, done: usize, total: usize },
    /// Write `log` and fail the task with `error`; the workflow stops.
    Fail { log: String, error: String },
    /// End the task with `status` and result `summary`, and remember `note`.
    Finish { status: String, summary: String, note: String },
}

/// A run as plain values: the workflow's state and the next step's index.
pub open spec fn run_view(r: WorkflowRun) -> ((Seq<char>, Option<Seq<char>>), nat) {
    (wf_view(r.state), r.next as nat)
}

/// An event as plain values.
pub enum WorkflowEventView {
    Ready { cancelled: bool },
    StepSucceeded { output: Seq<char> },
    StepFailed { error: Seq<char> },
}

pub open spec fn workflow_event_view(e: WorkflowEvent) -> WorkflowEventView {
    match e {
        WorkflowEvent::Ready { cancelled } => WorkflowEventView::Ready { cancelled },
        WorkflowEvent::StepSucceeded { output } => WorkflowEventView::StepSucceeded { output: output@ },
        WorkflowEvent::StepFailed { error } => WorkflowEventView::StepFailed { error: error@ },
    }
}

/// An action of the run loop as plain values.
pub enum WorkflowActionView {
    RunStep { step: Seq<char>, action: ActionView, log: Seq<char> },
    StepDone { log: Seq<char>, done: nat, total: nat },
    Fail { log: Seq<char>, error: Seq<char> },
    Finish { status: Seq<char>, summary: Seq<char>, note: Seq<char> },
}

pub open spec fn workflow_action_view(a: WorkflowAction) -> WorkflowActionView {
    match a {
        WorkflowAction::RunStep { step, action, log } => WorkflowActionView::RunStep {
            step: step@,
            action: action_view(action),
            log: log@,
        },
        WorkflowAction::StepDone { log, done, total } => WorkflowActionView::StepDone {
            log: log@,
            done: done as nat,
            total: total as nat,
        },
        WorkflowAction::Fail { log, error } => WorkflowActionView::Fail { log: log@, error: error@ },
        WorkflowAction::Finish { status, summary, note } => WorkflowActionView::Finish {
            status: status@,
            summary: summary@,
            note: note@,
        },
    }
}

/// One turn of the run loop over `steps`: when the runner is ready, a
/// cancelled task ends as cancelled, a run with no step left ends as
/// completed, and otherwise the next step is started; a step that
/// succeeded hands its output on and the run moves to the next step; a
/// step that failed fails the task.
pub open spec fn workflow_transition(
    steps: Seq<Seq<char>>,
    run: ((Seq<char>, Option<Seq<char>>), nat),
    event: WorkflowEventView,
) -> (((Seq<char>, Option<Seq<char>>), nat), WorkflowActionView) {
    let (w, next) = run;
    match event {
        WorkflowEventView::Ready { cancelled } => if cancelled || next >= steps.len() {
            (
                run,
                WorkflowActionView::Finish {
                    status: if cancelled {
                        "iptal edildi"@
                    } else {
                        "tamamlandı"@
                    },
                    summary: "İş akışı tamamlandı. Son dosya: "@ + w.0,
                    note: "Otomatik iş akışı çalıştırdı ("@ + join(steps, "→"@) + "): "@ + w.0,
                },
            )
        } else {
            (
                run,
                WorkflowActionView::RunStep {
                    step: steps[next as int],
                    action: action_of(w, steps[next as int]),
                    log: "▶ "@ + steps[next as int] + " başladı"@,
                },
            )
        },
        WorkflowEventView::StepSucceeded { output } => (
            (after_step(w, steps[next as int], output), next + 1),
            WorkflowActionView::StepDone {
                log: "✓ "@ + steps[next as int] + " tamamlandı"@,
                done: next + 1,
                total: steps.len(),
            },
        ),
        WorkflowEventView::StepFailed { error } => (
            run,
            WorkflowActionView::Fail { log: "✗ "@ + steps[next as int] + " hatası: "@ + error, error },
        ),
    }
}

/// A run about to start on `input_path`.
pub fn workflow_run_start(input_path: String) -> (r: WorkflowRun)
    ensures
        run_view(r) == ((input_path@, None::<Seq<char>>), 0nat),
{
    WorkflowRun { state: workflow_start(input_path), next: 0 }
}

/// One turn of the run loop (see [`workflow_transition`]). A step's
/// outcome is taken only while a step is running.
pub fn workflow_step(run: &mut WorkflowRun, steps: &Vec<String>, event: WorkflowEvent) -> (a: WorkflowAction)
    requires
        !(event is Ready) ==> old(run).next < steps.len(),
    ensures
        (run_view(*final(run)), workflow_action_view(a)) == workflow_transition(
            str_views(steps@),
            run_view(*old(run)),
            workflow_event_view(event),
        ),
{
    match event {
        WorkflowEvent::Ready { cancelled } => {
            if cancelled || run.next >= steps.len() {
                let status = if cancelled {
                    "iptal edildi".to_owned()
                } else {
                    "tamamlandı".to_owned()
                };
                WorkflowAction::Finish {
                    status,
                    summary: workflow_summary(&run.state),
                    note: workflow_note(steps, &run.state),
                }
            } else {
                let step = steps[run.next].clone();
                let action = step_action(&run.state, step.as_str());
                let log = step_started_line(step.as_str());
                WorkflowAction::RunStep { step, action, log }
            }
        },
        WorkflowEvent::StepSucceeded { output } => {
            let step = steps[run.next].clone();
            step_done(&mut run.state, step.as_str(), output);
            run.next = run.next + 1;
            WorkflowAction::StepDone { log: step_finished_line(step.as_str()), done: run.next, total: steps.len() }
        },
        WorkflowEvent::StepFailed { error } => {
            let step = steps[run.next].clone();
            let log = step_failed_line(step.as_str(), error.as_str());
            WorkflowAction::Fail { log, error }
        },
    }
}

// ---------------------------------------------------------------------
// Laws
// ---------------------------------------------------------------------

/// A cancelled workflow stops: once the runner reports the cancel, the
/// task ends with the status `iptal edildi` and no further step starts.
pub proof fn lemma_cancel_stops(steps: Seq<Seq<char>>, run: ((Seq<char>, Option<Seq<char>>), nat))
    ensures
        workflow_transition(steps, run, WorkflowEventView::Ready { cancelled: true }).0 == run,
        workflow_transition(steps, run, WorkflowEventView::Ready { cancelled: true }).1 matches
            WorkflowActionView::Finish { status, .. } && status == "iptal edildi"@,
{
}

/// A dub never runs before subtitles were produced: as first step it fails
/// with the plan-order message.
pub proof fn lemma_dub_needs_subtitles(input: Seq<char>)
    ensures
        action_of((input, None), "dub"@) == (ActionView::Fail { error: "Önce altyazı üretilmeli (plan sırası hatalı)."@ }),
{
    step_names_differ();
}

/// The subtitles a step produced are the ones a later dub works from, and
/// the dub works on the file the steps before it left.
pub proof fn lemma_dub_uses_produced_subtitles(w: (Seq<char>, Option<Seq<char>>), srt: Seq<char>)
    ensures
        action_of(after_step(w, "subtitle"@, srt), "dub"@) == (ActionView::Dub { video: w.0, srt }),
{
    step_names_differ();
}

/// Producing subtitles leaves the file the next step works on unchanged;
/// a dub or an upscale hands its output to the next step.
pub proof fn lemma_step_hands_over(w: (Seq<char>, Option<Seq<char>>), step: Seq<char>, output: Seq<char>)
    ensures
        step == "subtitle"@ ==> after_step(w, step, output).0 == w.0,
        step == "dub"@ || step == "upscale"@ ==> after_step(w, step, output).0 == output,
        (step == "dub"@ || step == "upscale"@) ==> action_of(after_step(w, step, output), "upscale"@)
            == (ActionView::Upscale { input: output, scale: 2 }),
{
    step_names_differ();
}

/// After a run, the file the workflow ends on is the output of its last
/// dub or upscale step, or the input when it has none.
pub proof fn lemma_final_file(input: Seq<char>, steps: Seq<Seq<char>>, outputs: Seq<Seq<char>>)
    requires
        steps.len() == outputs.len(),
    ensures
        run_steps(input, steps, outputs).0 == ({
            let k = last_producing(steps);
            if k < 0 {
                input
            } else {
                outputs[k]
            }
        }),
    decreases steps.len(),
{
    step_names_differ();
    if steps.len() > 0 {
        lemma_final_file(input, steps.drop_last(), outputs.drop_last());
        lemma_last_producing_range(steps.drop_last());
        let k = last_producing(steps.drop_last());
        if k >= 0 {
            assert(outputs.drop_last()[k] == outputs[k]);
        }
    }
}

/// The three step ids are different words.
proof fn step_names_differ()
    ensures
        "subtitle"@ != "dub"@,
        "subtitle"@ != "upscale"@,
        "dub"@ != "upscale"@,
{
    reveal_strlit("subtitle");
    reveal_strlit("dub");
    reveal_strlit("upscale");
    assert("subtitle"@.len() != "dub"@.len());
    assert("subtitle"@.len() != "upscale"@.len());
    assert("dub"@.len() != "upscale"@.len());
}

proof fn lemma_last_producing_range(steps: Seq<Seq<char>>)
    ensures
        -1 <= last_producing(steps) < steps.len(),
    decreases steps.len(),
{
    if steps.len() > 0 {
        lemma_last_producing_range(steps.drop_last());
    }
}

/// Index of the last dub or upscale step, or -1.
pub open spec fn last_producing(steps: Seq<Seq<char>>) -> int
    decreases steps.len(),
{
    if steps.len() == 0 {
        -1
    } else if steps.last() == "dub"@ || steps.last() == "upscale"@ {
        steps.len() - 1
    } else {
        last_producing(steps.drop_last())
    }
}

} // verus!
