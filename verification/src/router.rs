//! Which installed model suits which task: the per-task preferences and the
//! rules that pick among the models actually installed.
use crate::text::{
    before_char, contains_seq, find_first, lemma_find_first_at, lemma_find_first_none,
    lemma_find_first_valid, spec_lowercase, split_on, str_contains, str_eq, str_views,
    to_lowercase,
};
use vstd::prelude::*;

verus! {

/// The preferred model for each kind of task.
pub struct RouterConfig {
    pub genel: String,
    pub kod: String,
    pub belge_analiz: String,
    pub excel: String,
    pub dil_egitimi: String,
    pub gorsel_analiz: String,
}

impl Clone for RouterConfig {
    fn clone(&self) -> (r: Self)
        ensures
            r == *self,
    {
        RouterConfig {
            genel: self.genel.clone(),
            kod: self.kod.clone(),
            belge_analiz: self.belge_analiz.clone(),
            excel: self.excel.clone(),
            dil_egitimi: self.dil_egitimi.clone(),
            gorsel_analiz: self.gorsel_analiz.clone(),
        }
    }
}

/// The built-in preferences: a general model everywhere, a coding model for
/// code and a vision model for images.
pub open spec fn is_default_config(c: RouterConfig) -> bool {
    &&& c.genel@ == "llama3.2"@
    &&& c.kod@ == "qwen2.5-coder:7b"@
    &&& c.belge_analiz@ == "llama3.2"@
    &&& c.excel@ == "llama3.2"@
    &&& c.dil_egitimi@ == "llama3.2"@
    &&& c.gorsel_analiz@ == "llava:7b"@
}

impl Default for RouterConfig {
    fn default() -> (c: Self)
        ensures
            is_default_config(c),
    {
        RouterConfig {
            genel: "llama3.2".to_owned(),
            kod: "qwen2.5-coder:7b".to_owned(),
            belge_analiz: "llama3.2".to_owned(),
            excel: "llama3.2".to_owned(),
            dil_egitimi: "llama3.2".to_owned(),
            gorsel_analiz: "llava:7b".to_owned(),
        }
    }
}

/// The preferred model of a task; unknown tasks use the general one.
pub open spec fn preferred(c: RouterConfig, task: Seq<char>) -> Seq<char> {
    if task == "kod"@ {
        c.kod@
    } else if task == "belge_analiz"@ {
        c.belge_analiz@
    } else if task == "excel"@ {
        c.excel@
    } else if task == "dil_egitimi"@ {
        c.dil_egitimi@
    } else if task == "gorsel_analiz"@ {
        c.gorsel_analiz@
    } else {
        c.genel@
    }
}

/// A model name without its `:tag`.
pub open spec fn base_name(m: Seq<char>) -> Seq<char> {
    split_on(m, ':')[0]
}

/// The word looked for in model names when the preferred model is missing.
pub open spec fn task_keyword(task: Seq<char>) -> Option<Seq<char>> {
    if task == "kod"@ {
        Some("coder"@)
    } else if task == "gorsel_analiz"@ {
        Some("llava"@)
    } else {
        None
    }
}

/// Whether a model name has the base name `pb`.
pub open spec fn same_base(pb: Seq<char>) -> spec_fn(Seq<char>) -> bool {
    |m: Seq<char>| base_name(m) == pb
}

/// Whether the lower-cased model name holds `k`.
pub open spec fn names_with(k: Seq<char>) -> spec_fn(Seq<char>) -> bool {
    |m: Seq<char>| contains_seq(spec_lowercase(m), k)
}

/// Whether the model is not an embedding model.
pub open spec fn not_embedding() -> spec_fn(Seq<char>) -> bool {
    |m: Seq<char>| !contains_seq(spec_lowercase(m), "embed"@)
}

/// The refusal when no model is installed.
pub open spec fn no_models_message() -> Seq<char> {
    "Hiç model kurulu değil. Önce Modeller sekmesinden bir model indir."@
}

/// Index of the installed model suggested for the task: the preferred model
/// under any tag; else the first whose lower-cased name holds the task's
/// keyword; else the first that is not an embedding model; else the first.
pub open spec fn suggestion_index(c: RouterConfig, task: Seq<char>, ms: Seq<Seq<char>>) -> int {
    let pb = base_name(preferred(c, task));
    let i1 = find_first(ms, same_base(pb));
    if i1 >= 0 {
        i1
    } else {
        let i2 = match task_keyword(task) {
            Some(k) => find_first(ms, names_with(k)),
            None => -1,
        };
        if i2 >= 0 {
            i2
        } else {
            let i3 = find_first(ms, not_embedding());
            if i3 >= 0 {
                i3
            } else {
                0
            }
        }
    }
}

/// Suggests the installed model best suited to `task`: the model configured
/// for the task if installed under any tag, else an installed model whose
/// name holds the task's keyword (`coder` for code, `llava` for images),
/// else the first installed model that is not an embedding model, else the
/// first installed model. With nothing installed it refuses.
pub fn suggest_model_for_task(config: &RouterConfig, task: &str, installed_models: &Vec<String>) -> (r:
    Result<String, String>)
    ensures
        installed_models@.len() == 0 ==> r is Err && r->Err_0@ == no_models_message(),
        installed_models@.len() > 0 ==> r is Ok && r->Ok_0@ == str_views(installed_models@)[suggestion_index(
            *config,
            task@,
            str_views(installed_models@),
        )],
{
    let ghost ms = str_views(installed_models@);
    if installed_models.len() == 0 {
        return Err("Hiç model kurulu değil. Önce Modeller sekmesinden bir model indir.".to_owned());
    }
    let preferred_model: &String = if str_eq(task, "kod") {
        &config.kod
    } else if str_eq(task, "belge_analiz") {
        &config.belge_analiz
    } else if str_eq(task, "excel") {
        &config.excel
    } else if str_eq(task, "dil_egitimi") {
        &config.dil_egitimi
    } else if str_eq(task, "gorsel_analiz") {
        &config.gorsel_analiz
    } else {
        &config.genel
    };
    let pb = before_char(preferred_model.as_str(), ':');
    let ghost pbs = base_name(preferred(*config, task@));
    assert(pb@ == pbs);
    let ghost p1 = same_base(pbs);
    let mut i: usize = 0;
    while i < installed_models.len()
        invariant
            i <= installed_models.len(),
            ms == str_views(installed_models@),
            forall|j: int| 0 <= j < i ==> !p1(#[trigger] ms[j]),
            pb@ == pbs,
            pbs == base_name(preferred(*config, task@)),
            p1 == same_base(pbs),
        decreases installed_models.len() - i,
    {
        let b = before_char(installed_models[i].as_str(), ':');
        if str_eq(b.as_str(), pb.as_str()) {
            proof {
                assert(p1(ms[i as int]));
                lemma_find_first_at(ms, p1, i as int);
                assert(suggestion_index(*config, task@, ms) == i);
                assert(ms[i as int] == installed_models@[i as int]@);
            }
            return Ok(installed_models[i].clone());
        }
        i = i + 1;
    }
    proof {
        lemma_find_first_none(ms, p1);
    }
    let is_code = str_eq(task, "kod");
    let is_vision = str_eq(task, "gorsel_analiz");
    if is_code || is_vision {
        let kw: &str = if is_code {
            "coder"
        } else {
            "llava"
        };
        let ghost k = task_keyword(task@)->0;
        assert(kw@ == k);
        let ghost p2 = names_with(k);
        let mut i: usize = 0;
        while i < installed_models.len()
            invariant
                i <= installed_models.len(),
                ms == str_views(installed_models@),
                forall|j: int| 0 <= j < i ==> !p2(#[trigger] ms[j]),
                kw@ == k,
                task_keyword(task@) == Some(k),
                find_first(ms, same_base(base_name(preferred(*config, task@)))) == -1,
                p2 == names_with(k),
            decreases installed_models.len() - i,
        {
            let low = to_lowercase(installed_models[i].as_str());
            if str_contains(low.as_str(), kw) {
                proof {
                    assert(p2(ms[i as int]));
                    lemma_find_first_at(ms, p2, i as int);
                    assert(suggestion_index(*config, task@, ms) == i);
                    assert(ms[i as int] == installed_models@[i as int]@);
                }
                return Ok(installed_models[i].clone());
            }
            i = i + 1;
        }
        proof {
            lemma_find_first_none(ms, p2);
        }
    }
    proof {
        if !(is_code || is_vision) {
            assert(task_keyword(task@) is None);
        }
    }
    let ghost p3 = not_embedding();
    let mut i: usize = 0;
    while i < installed_models.len()
        invariant
            i <= installed_models.len(),
            ms == str_views(installed_models@),
            forall|j: int| 0 <= j < i ==> !p3(#[trigger] ms[j]),
            p3 == not_embedding(),
            find_first(ms, same_base(base_name(preferred(*config, task@)))) == -1,
            match task_keyword(task@) {
                Some(k) => find_first(ms, names_with(k)) == -1,
                None => true,
            },
        decreases installed_models.len() - i,
    {
        let low = to_lowercase(installed_models[i].as_str());
        if !str_contains(low.as_str(), "embed") {
            proof {
                assert(p3(ms[i as int]));
                lemma_find_first_at(ms, p3, i as int);
                assert(suggestion_index(*config, task@, ms) == i);
                assert(ms[i as int] == installed_models@[i as int]@);
            }
            return Ok(installed_models[i].clone());
        }
        i = i + 1;
    }
    proof {
        lemma_find_first_none(ms, p3);
    }
    Ok(installed_models[0].clone())
}

/// A suggestion is always one of the installed models, and one is made
/// whenever any model is installed.
pub proof fn lemma_suggestion_is_installed(c: RouterConfig, task: Seq<char>, ms: Seq<Seq<char>>)
    requires
        ms.len() > 0,
    ensures
        0 <= suggestion_index(c, task, ms) < ms.len(),
{
    let pb = base_name(preferred(c, task));
    lemma_find_first_valid(ms, same_base(pb));
    match task_keyword(task) {
        Some(k) => lemma_find_first_valid(ms, names_with(k)),
        None => {},
    }
    lemma_find_first_valid(ms, not_embedding());
}

/// Whether some installed model has the base name `b`.
pub open spec fn installed_base(ms: Seq<Seq<char>>, b: Seq<char>) -> bool {
    exists|i: int| 0 <= i < ms.len() && #[trigger] base_name(ms[i]) == b
}

/// Each task is answered by the model configured for it: whenever a model
/// with the base name of the task's own field is installed (code `kod`,
/// documents `belge_analiz`, spreadsheets `excel`, language lessons
/// `dil_egitimi`, images `gorsel_analiz`, everything else `genel`), the
/// suggestion for that task is such a model.
pub proof fn lemma_task_gets_its_model(c: RouterConfig, ms: Seq<Seq<char>>)
    ensures
        installed_base(ms, base_name(c.kod@)) ==> base_name(ms[suggestion_index(c, "kod"@, ms)]) == base_name(
            c.kod@,
        ),
        installed_base(ms, base_name(c.belge_analiz@)) ==> base_name(ms[suggestion_index(c, "belge_analiz"@, ms)]) == base_name(
            c.belge_analiz@,
        ),
        installed_base(ms, base_name(c.excel@)) ==> base_name(ms[suggestion_index(c, "excel"@, ms)]) == base_name(
            c.excel@,
        ),
        installed_base(ms, base_name(c.dil_egitimi@)) ==> base_name(ms[suggestion_index(c, "dil_egitimi"@, ms)]) == base_name(
            c.dil_egitimi@,
        ),
        installed_base(ms, base_name(c.gorsel_analiz@)) ==> base_name(ms[suggestion_index(c, "gorsel_analiz"@, ms)]) == base_name(
            c.gorsel_analiz@,
        ),
        installed_base(ms, base_name(c.genel@)) ==> base_name(ms[suggestion_index(c, "genel"@, ms)]) == base_name(
            c.genel@,
        ),
{
    task_names_differ();
    lemma_preferred_installed(c, "kod"@, ms);
    lemma_preferred_installed(c, "belge_analiz"@, ms);
    lemma_preferred_installed(c, "excel"@, ms);
    lemma_preferred_installed(c, "dil_egitimi"@, ms);
    lemma_preferred_installed(c, "gorsel_analiz"@, ms);
    lemma_preferred_installed(c, "genel"@, ms);
}

/// When the preferred model is installed under some tag, it is suggested.
proof fn lemma_preferred_installed(c: RouterConfig, task: Seq<char>, ms: Seq<Seq<char>>)
    ensures
        installed_base(ms, base_name(preferred(c, task))) ==> base_name(ms[suggestion_index(c, task, ms)])
            == base_name(preferred(c, task)),
{
    let pb = base_name(preferred(c, task));
    if installed_base(ms, pb) {
        let i = choose|i: int| 0 <= i < ms.len() && #[trigger] base_name(ms[i]) == pb;
        lemma_find_first_valid(ms, same_base(pb));
        if find_first(ms, same_base(pb)) < 0 {
            lemma_first_exists(ms, same_base(pb), i);
        }
    }
}

/// An element satisfying the predicate means `find_first` finds one.
proof fn lemma_first_exists(s: Seq<Seq<char>>, p: spec_fn(Seq<char>) -> bool, i: int)
    requires
        0 <= i < s.len(),
        p(s[i]),
    ensures
        find_first(s, p) >= 0,
    decreases s.len(),
{
    if !p(s[0]) {
        lemma_first_exists(s.drop_first(), p, i - 1);
    }
}

/// The task names are pairwise different.
proof fn task_names_differ()
    ensures
        "kod"@ != "belge_analiz"@,
        "kod"@ != "excel"@,
        "kod"@ != "dil_egitimi"@,
        "kod"@ != "gorsel_analiz"@,
        "kod"@ != "genel"@,
        "belge_analiz"@ != "excel"@,
        "belge_analiz"@ != "dil_egitimi"@,
        "belge_analiz"@ != "gorsel_analiz"@,
        "belge_analiz"@ != "genel"@,
        "excel"@ != "dil_egitimi"@,
        "excel"@ != "gorsel_analiz"@,
        "excel"@ != "genel"@,
        "dil_egitimi"@ != "gorsel_analiz"@,
        "dil_egitimi"@ != "genel"@,
        "gorsel_analiz"@ != "genel"@,
{
    reveal_strlit("kod");
    reveal_strlit("belge_analiz");
    reveal_strlit("excel");
    reveal_strlit("dil_egitimi");
    reveal_strlit("gorsel_analiz");
    reveal_strlit("genel");
    assert("kod"@.len() != "belge_analiz"@.len());
    assert("kod"@.len() != "excel"@.len());
    assert("kod"@.len() != "dil_egitimi"@.len());
    assert("kod"@.len() != "gorsel_analiz"@.len());
    assert("kod"@.len() != "genel"@.len());
    assert("belge_analiz"@.len() != "excel"@.len());
    assert("belge_analiz"@.len() != "dil_egitimi"@.len());
    assert("belge_analiz"@.len() != "gorsel_analiz"@.len());
    assert("belge_analiz"@.len() != "genel"@.len());
    assert("excel"@.len() != "dil_egitimi"@.len());
    assert("excel"@.len() != "gorsel_analiz"@.len());
    assert("excel"@[0] != "genel"@[0]);
    assert("dil_egitimi"@.len() != "gorsel_analiz"@.len());
    assert("dil_egitimi"@.len() != "genel"@.len());
    assert("gorsel_analiz"@.len() != "genel"@.len());
}

} // verus!
