//! Per-language orchestration: where the two final files of a language live,
//! which search directories hold candidates, and the machine that resolves
//! the affix file first and the dictionary file second.

use vstd::prelude::*;
use vstd::string::StringExecFns;

use crate::config::Config;
use crate::config::source_for;
use crate::error::ErrorModel;
use crate::resolver::Action;
use crate::resolver::ActionModel;
use crate::resolver::Event;
use crate::resolver::EventModel;
use crate::resolver::FileResolver;
use crate::resolver::ResolverModel;
use crate::resolver::StateModel;
use crate::resolver::accepts;
use crate::resolver::step_model;
use crate::resolver::wf;

verus! {

/// The final path of a language's file: `<data_root>/dictionaries/<lang><ext>`.
pub open spec fn final_path_of(data_root: Seq<char>, lang: Seq<char>, ext: Seq<char>) -> Seq<
    char,
> {
    data_root + "/dictionaries/"@ + lang + ext
}

/// The cache path of a file: `<cache_root>/<name>`.
pub open spec fn cache_path_of(cache_root: Seq<char>, name: Seq<char>) -> Seq<char> {
    cache_root + seq!['/'] + name
}

/// Model of a [`LangProvider`].
pub struct ProviderModel {
    pub lang: Seq<char>,
    pub data_root: Seq<char>,
    pub cache_root: Seq<char>,
    pub directories: Seq<Seq<char>>,
    pub aff_url: Option<Seq<char>>,
    pub dic_url: Option<Seq<char>>,
}

/// Gathers the data files of one language: computes the deterministic final
/// paths, inspects the configured search directories, and builds the machine
/// that resolves both files.
pub struct LangProvider {
    pub lang: String,
    pub data_root: String,
    pub cache_root: String,
    pub aff_path: String,
    pub dic_path: String,
    pub aff_name: String,
    pub dic_name: String,
    pub directories: Vec<String>,
    pub aff_url: Option<String>,
    pub dic_url: Option<String>,
}

impl View for LangProvider {
    type V = ProviderModel;

    open spec fn view(&self) -> ProviderModel {
        ProviderModel {
            lang: self.lang@,
            data_root: self.data_root@,
            cache_root: self.cache_root@,
            directories: self.directories.deep_view(),
            aff_url: match &self.aff_url {
                Option::Some(u) => Option::Some(u@),
                Option::None => Option::None,
            },
            dic_url: match &self.dic_url {
                Option::Some(u) => Option::Some(u@),
                Option::None => Option::None,
            },
        }
    }
}

/// A provider whose stored paths and names are the ones its language and
/// roots determine.
pub open spec fn provider_paths_wf(p: LangProvider) -> bool {
    &&& p.aff_path@ == final_path_of(p.data_root@, p.lang@, ".aff"@)
    &&& p.dic_path@ == final_path_of(p.data_root@, p.lang@, ".dic"@)
    &&& p.aff_name@ == p.lang@ + ".aff"@
    &&& p.dic_name@ == p.lang@ + ".dic"@
}

fn clone_strings(v: &Vec<String>) -> (r: Vec<String>)
    ensures
        r.deep_view() == v.deep_view(),
{
    let mut r: Vec<String> = Vec::new();
    let mut i: usize = 0;
    while i < v.len()
        invariant
            i <= v.len(),
            r.deep_view() == v.deep_view().take(i as int),
        decreases v.len() - i,
    {
        let ghost prev = r.deep_view();
        let s = v[i].clone();
        proof {
            assert(s == v@[i as int]);
        }
        r.push(s);
        i = i + 1;
        proof {
            assert forall|j: int| 0 <= j < r@.len() implies r.deep_view()[j]
                == v.deep_view().take(i as int)[j] by {
                if j < prev.len() {
                    assert(r.deep_view()[j] == prev[j]);
                } else {
                    assert(r@[j] == v@[i - 1]);
                }
            }
            assert(prev.len() == i - 1);
            assert(r@.len() == prev.len() + 1);
            assert(r.deep_view().len() == i as int);
            assert(v.deep_view().take(i as int).len() == i as int);
            assert(r.deep_view() =~= v.deep_view().take(i as int));
        }
    }
    proof {
        assert(v.deep_view().take(v@.len() as int) =~~= v.deep_view());
    }
    r
}

fn clone_opt_string(v: &Option<String>) -> (r: Option<String>)
    ensures
        match (v, &r) {
            (Option::Some(a), Option::Some(b)) => a@ == b@,
            (Option::None, Option::None) => true,
            _ => false,
        },
{
    match v {
        Option::Some(s) => Option::Some(s.clone()),
        Option::None => Option::None,
    }
}

impl LangProvider {
    /// A provider for one language under the given configuration and the
    /// platform's data and cache roots. Computes the final paths as
    /// `<data_root>/dictionaries/<lang>.aff` and `.dic`, and takes the
    /// language's source URLs from the configuration, when it has any.
    pub fn new(lang: &str, config: &Config, data_root: &str, cache_root: &str) -> (r:
        LangProvider)
        ensures
            r@.lang == lang@,
            r@.data_root == data_root@,
            r@.cache_root == cache_root@,
            r@.directories == config@.directories,
            provider_paths_wf(r),
            match source_for(config@.sources, lang@) {
                Option::Some(s) => r@.aff_url == Option::Some(s.aff) && r@.dic_url
                    == Option::Some(s.dic),
                Option::None => r@.aff_url is None && r@.dic_url is None,
            },
    {
        let mut aff_path = String::from_str(data_root);
        aff_path.append("/dictionaries/");
        aff_path.append(lang);
        aff_path.append(".aff");
        let mut dic_path = String::from_str(data_root);
        dic_path.append("/dictionaries/");
        dic_path.append(lang);
        dic_path.append(".dic");
        let mut aff_name = String::from_str(lang);
        aff_name.append(".aff");
        let mut dic_name = String::from_str(lang);
        dic_name.append(".dic");
        let (aff_url, dic_url) = match config.source_for_lang(lang) {
            Option::Some(s) => (Option::Some(s.aff.clone()), Option::Some(s.dic.clone())),
            Option::None => (Option::None, Option::None),
        };
        LangProvider {
            lang: String::from_str(lang),
            data_root: String::from_str(data_root),
            cache_root: String::from_str(cache_root),
            aff_path,
            dic_path,
            aff_name,
            dic_name,
            directories: clone_strings(&config.dictionaries.directories),
            aff_url,
            dic_url,
        }
    }

    /// Location of the final `.aff` file.
    pub fn aff(&self) -> (r: &String)
        ensures
            r@ == self.aff_path@,
    {
        &self.aff_path
    }

    /// Location of the final `.dic` file.
    pub fn dic(&self) -> (r: &String)
        ensures
            r@ == self.dic_path@,
    {
        &self.dic_path
    }

    /// The search-directory candidates holding a same-named `.aff` file, in
    /// configured order. `exists` reports, per directory, whether
    /// `<dir>/<lang>.aff` is on disk; a pure inspection, used for diagnostics.
    pub fn aff_on_disk(&self, exists: &Vec<bool>) -> (r: Vec<String>)
        requires
            exists@.len() == self@.directories.len(),
        ensures
            r.deep_view() == matches_on_disk(self@.directories, self.aff_name@, exists@),
    {
        self.on_disk(&self.aff_name, exists)
    }

    /// The search-directory candidates holding a same-named `.dic` file, in
    /// configured order.
    pub fn dic_on_disk(&self, exists: &Vec<bool>) -> (r: Vec<String>)
        requires
            exists@.len() == self@.directories.len(),
        ensures
            r.deep_view() == matches_on_disk(self@.directories, self.dic_name@, exists@),
    {
        self.on_disk(&self.dic_name, exists)
    }

    fn on_disk(&self, name: &String, exists: &Vec<bool>) -> (r: Vec<String>)
        requires
            exists@.len() == self@.directories.len(),
        ensures
            r.deep_view() == matches_on_disk(self@.directories, name@, exists@),
    {
        let mut out: Vec<String> = Vec::new();
        let n = self.directories.len();
        let mut i: usize = 0;
        proof {
            assert(self@.directories.take(0) =~= Seq::<Seq<char>>::empty());
            assert(out.deep_view() =~= matches_on_disk(
                self@.directories.take(0),
                name@,
                exists@.take(0),
            ));
        }
        while i < n
            invariant
                i <= n,
                n == self@.directories.len(),
                exists@.len() == n,
                out.deep_view() == matches_on_disk(
                    self@.directories.take(i as int),
                    name@,
                    exists@.take(i as int),
                ),
            decreases n - i,
        {
            let ghost prev = out.deep_view();
            if exists[i] {
                let p = join_path(&self.directories[i], name);
                out.push(p);
            }
            i = i + 1;
            proof {
                let dirs = self@.directories;
                assert(dirs.take(i as int).drop_last() =~= dirs.take(i - 1));
                assert(exists@.take(i as int).drop_last() =~= exists@.take(i - 1));
                assert(dirs.take(i as int).last() == dirs[i - 1]);
                assert(exists@.take(i as int)[i - 1] == exists@[i - 1]);
                if exists@[i - 1] {
                    assert(out@.len() == prev.len() + 1);
                    assert forall|j: int| 0 <= j < out@.len() implies out.deep_view()[j]
                        == prev.push(dirs[i - 1] + seq!['/'] + name@)[j] by {
                        if j < prev.len() {
                            assert(out.deep_view()[j] == prev[j]);
                        }
                    }
                    assert(out.deep_view() =~= prev.push(dirs[i - 1] + seq!['/'] + name@));
                }
                assert(out.deep_view() =~= matches_on_disk(
                    dirs.take(i as int),
                    name@,
                    exists@.take(i as int),
                ));
            }
        }
        proof {
            assert(self@.directories.take(n as int) =~= self@.directories);
            assert(exists@.take(n as int) =~= exists@);
        }
        out
    }

    /// The machine that makes both final files of the language available: it
    /// resolves the affix file completely first, then the dictionary file,
    /// and fails as soon as either resolution fails.
    pub fn ensure_data(&self) -> (r: DataResolver)
        ensures
            r@ == (DataModel {
                aff: ResolverModel {
                    final_path: self.aff_path@,
                    cache_path: cache_path_of(self.cache_root@, self.aff_name@),
                    file_name: self.aff_name@,
                    directories: self@.directories,
                    url: self@.aff_url,
                    state: StateModel::AwaitFinalCheck,
                },
                dic: ResolverModel {
                    final_path: self.dic_path@,
                    cache_path: cache_path_of(self.cache_root@, self.dic_name@),
                    file_name: self.dic_name@,
                    directories: self@.directories,
                    url: self@.dic_url,
                    state: StateModel::AwaitFinalCheck,
                },
                doing_dic: false,
            }),
            data_wf(r@),
    {
        let aff = FileResolver::new(
            self.aff_path.clone(),
            join_path(&self.cache_root, &self.aff_name),
            self.aff_name.clone(),
            clone_strings(&self.directories),
            clone_opt_string(&self.aff_url),
        );
        let dic = FileResolver::new(
            self.dic_path.clone(),
            join_path(&self.cache_root, &self.dic_name),
            self.dic_name.clone(),
            clone_strings(&self.directories),
            clone_opt_string(&self.dic_url),
        );
        DataResolver { aff, dic, doing_dic: false }
    }

    /// The final files that `remove_data` must delete, in order: the affix
    /// file, then the dictionary file, each only when it exists. When neither
    /// exists the plan is empty, so removal of nothing succeeds: removal is
    /// idempotent.
    pub fn remove_plan(&self, aff_exists: bool, dic_exists: bool) -> (r: Vec<String>)
        ensures
            r.deep_view() == remove_plan_spec(
                self.aff_path@,
                self.dic_path@,
                aff_exists,
                dic_exists,
            ),
            (!aff_exists && !dic_exists) ==> r@.len() == 0,
    {
        let mut v: Vec<String> = Vec::new();
        if aff_exists {
            v.push(self.aff_path.clone());
        }
        if dic_exists {
            v.push(self.dic_path.clone());
        }
        proof {
            assert(v.deep_view() =~= remove_plan_spec(
                self.aff_path@,
                self.dic_path@,
                aff_exists,
                dic_exists,
            ));
        }
        v
    }
}

/// The candidates for a file in the configured directories that are on disk,
/// in configured order: `<dir>/<name>` for each directory whose flag is set.
pub open spec fn matches_on_disk(dirs: Seq<Seq<char>>, name: Seq<char>, exists: Seq<bool>) -> Seq<
    Seq<char>,
>
    decreases dirs.len(),
{
    if dirs.len() == 0 {
        Seq::empty()
    } else {
        let rest = matches_on_disk(dirs.drop_last(), name, exists.drop_last());
        if exists[dirs.len() - 1] {
            rest.push(dirs.last() + seq!['/'] + name)
        } else {
            rest
        }
    }
}

/// The deletions that removal performs, given which final files exist.
pub open spec fn remove_plan_spec(
    aff_path: Seq<char>,
    dic_path: Seq<char>,
    aff_exists: bool,
    dic_exists: bool,
) -> Seq<Seq<char>> {
    let base: Seq<Seq<char>> = if aff_exists {
        seq![aff_path]
    } else {
        Seq::empty()
    };
    if dic_exists {
        base.push(dic_path)
    } else {
        base
    }
}

fn join_path(base: &String, name: &String) -> (r: String)
    ensures
        r@ == base@ + seq!['/'] + name@,
{
    let mut s = String::from_str(base.as_str());
    s.append("/");
    s.append(name.as_str());
    proof {
        reveal_strlit("/");
        assert(s@ =~= base@ + seq!['/'] + name@);
    }
    s
}

// ------------------------------------------------------------------
// Resolving both files of a language, the affix file first.
// ------------------------------------------------------------------

/// Model of a [`DataResolver`].
pub struct DataModel {
    pub aff: ResolverModel,
    pub dic: ResolverModel,
    pub doing_dic: bool,
}

/// Which events the two-file machine can answer: those of the resolver that
/// is currently running.
pub open spec fn data_accepts(dm: DataModel, ev: EventModel) -> bool {
    if dm.doing_dic {
        accepts(dm.dic, ev)
    } else {
        accepts(dm.aff, ev)
    }
}

/// Both inner machines are well formed, and the dictionary machine has not
/// started while the affix file is still being resolved.
pub open spec fn data_wf(dm: DataModel) -> bool {
    wf(dm.aff) && wf(dm.dic) && (!dm.doing_dic ==> dm.dic.state is AwaitFinalCheck)
}

/// One transition of the two-file machine: while the affix file resolves,
/// delegate to its machine; the moment it finishes successfully, begin the
/// dictionary file. Any failure ends the whole run at once.
pub open spec fn data_step_model(dm: DataModel, ev: EventModel) -> (DataModel, ActionModel) {
    if !dm.doing_dic {
        let r = step_model(dm.aff, ev);
        if r.1 == (ActionModel::Finish { result: Result::<(), ErrorModel>::Ok(()) }) {
            (
                DataModel { aff: r.0, doing_dic: true, ..dm },
                ActionModel::CheckFinal { path: dm.dic.final_path },
            )
        } else {
            (DataModel { aff: r.0, ..dm }, r.1)
        }
    } else {
        let r = step_model(dm.dic, ev);
        (DataModel { dic: r.0, ..dm }, r.1)
    }
}

/// The actions the two-file machine issues when answered with these events in
/// order.
pub open spec fn data_run(dm: DataModel, evs: Seq<EventModel>) -> Seq<ActionModel>
    decreases evs.len(),
{
    if evs.len() == 0 {
        Seq::empty()
    } else {
        seq![data_step_model(dm, evs[0]).1] + data_run(
            data_step_model(dm, evs[0]).0,
            evs.drop_first(),
        )
    }
}

/// Every event of the sequence answers the action pending at its turn.
pub open spec fn data_valid_run(dm: DataModel, evs: Seq<EventModel>) -> bool
    decreases evs.len(),
{
    evs.len() == 0 || (data_accepts(dm, evs[0]) && data_valid_run(
        data_step_model(dm, evs[0]).0,
        evs.drop_first(),
    ))
}

proof fn lemma_data_run_unfold(dm: DataModel, evs: Seq<EventModel>)
    requires
        evs.len() > 0,
    ensures
        data_run(dm, evs) == seq![data_step_model(dm, evs[0]).1] + data_run(
            data_step_model(dm, evs[0]).0,
            evs.drop_first(),
        ),
        data_valid_run(dm, evs) == (data_accepts(dm, evs[0]) && data_valid_run(
            data_step_model(dm, evs[0]).0,
            evs.drop_first(),
        )),
{
}

/// The end-to-end scenario: with no search directories, both URLs configured,
/// and a fresh environment (no final and no cache file, so every existence
/// check answers no), a run whose fetches, reads, writes and deletions all
/// succeed fetches each URL exactly once, writes the normalization of each
/// fetched body at the file's final path, deletes both cache files, and
/// finishes successfully — these twelve actions and no others.
#[verifier::rlimit(30)]
pub proof fn lemma_end_to_end_fetch(
    dm: DataModel,
    evs: Seq<EventModel>,
    url_a: Seq<char>,
    url_d: Seq<char>,
    body_a: Seq<u8>,
    body_d: Seq<u8>,
    out_a: Seq<u8>,
    out_d: Seq<u8>,
)
    requires
        !dm.doing_dic,
        dm.aff.state is AwaitFinalCheck,
        dm.dic.state is AwaitFinalCheck,
        dm.aff.directories.len() == 0,
        dm.dic.directories.len() == 0,
        dm.aff.url == Option::Some(url_a),
        dm.dic.url == Option::Some(url_d),
        crate::encoding::normalize_spec(body_a) == Result::<Seq<u8>, ErrorModel>::Ok(out_a),
        crate::encoding::normalize_spec(body_d) == Result::<Seq<u8>, ErrorModel>::Ok(out_d),
        evs =~= seq![
            EventModel::Exists { yes: false },
            EventModel::Exists { yes: false },
            EventModel::Completed { result: Result::Ok(()) },
            EventModel::CacheBytes { result: Result::Ok(body_a) },
            EventModel::WroteFinal { result: Result::Ok(()) },
            EventModel::Completed { result: Result::Ok(()) },
            EventModel::Exists { yes: false },
            EventModel::Exists { yes: false },
            EventModel::Completed { result: Result::Ok(()) },
            EventModel::CacheBytes { result: Result::Ok(body_d) },
            EventModel::WroteFinal { result: Result::Ok(()) },
            EventModel::Completed { result: Result::Ok(()) },
        ],
    ensures
        data_valid_run(dm, evs),
        data_run(dm, evs) =~= seq![
            ActionModel::CheckCache { path: dm.aff.cache_path },
            ActionModel::Fetch { url: url_a, to: dm.aff.cache_path },
            ActionModel::ReadCache { path: dm.aff.cache_path },
            ActionModel::WriteFinal { path: dm.aff.final_path, bytes: out_a },
            ActionModel::DeleteCache { path: dm.aff.cache_path },
            ActionModel::CheckFinal { path: dm.dic.final_path },
            ActionModel::CheckCache { path: dm.dic.cache_path },
            ActionModel::Fetch { url: url_d, to: dm.dic.cache_path },
            ActionModel::ReadCache { path: dm.dic.cache_path },
            ActionModel::WriteFinal { path: dm.dic.final_path, bytes: out_d },
            ActionModel::DeleteCache { path: dm.dic.cache_path },
            ActionModel::Finish { result: Result::Ok(()) },
        ],
{
    let e0 = evs;
    lemma_data_run_unfold(dm, e0);
    let d1 = data_step_model(dm, e0[0]).0;
    let e1 = e0.drop_first();
    assert(d1.aff.state is AwaitCacheCheck);
    assert(e1[0] == evs[1]);
    lemma_data_run_unfold(d1, e1);
    let d2 = data_step_model(d1, e1[0]).0;
    let e2 = e1.drop_first();
    assert(d2.aff.state is AwaitFetch);
    assert(e2 =~= evs.skip(2));
    assert(e2[0] == evs[2]);
    lemma_data_run_unfold(d2, e2);
    let d3 = data_step_model(d2, e2[0]).0;
    let e3 = e2.drop_first();
    assert(d3.aff.state is AwaitRead);
    assert(e3 =~= evs.skip(3));
    assert(e3[0] == evs[3]);
    lemma_data_run_unfold(d3, e3);
    let d4 = data_step_model(d3, e3[0]).0;
    let e4 = e3.drop_first();
    assert(d4.aff.state is AwaitWrite);
    assert(e4 =~= evs.skip(4));
    assert(e4[0] == evs[4]);
    lemma_data_run_unfold(d4, e4);
    let d5 = data_step_model(d4, e4[0]).0;
    let e5 = e4.drop_first();
    assert(d5.aff.state is AwaitDelete);
    assert(e5 =~= evs.skip(5));
    assert(e5[0] == evs[5]);
    lemma_data_run_unfold(d5, e5);
    let d6 = data_step_model(d5, e5[0]).0;
    let e6 = e5.drop_first();
    assert(d6.doing_dic);
    assert(d6.dic.state is AwaitFinalCheck);
    assert(e6 =~= evs.skip(6));
    assert(e6[0] == evs[6]);
    lemma_data_run_unfold(d6, e6);
    let d7 = data_step_model(d6, e6[0]).0;
    let e7 = e6.drop_first();
    assert(d7.dic.state is AwaitCacheCheck);
    assert(e7 =~= evs.skip(7));
    assert(e7[0] == evs[7]);
    lemma_data_run_unfold(d7, e7);
    let d8 = data_step_model(d7, e7[0]).0;
    let e8 = e7.drop_first();
    assert(d8.dic.state is AwaitFetch);
    assert(e8 =~= evs.skip(8));
    assert(e8[0] == evs[8]);
    lemma_data_run_unfold(d8, e8);
    let d9 = data_step_model(d8, e8[0]).0;
    let e9 = e8.drop_first();
    assert(d9.dic.state is AwaitRead);
    assert(e9 =~= evs.skip(9));
    assert(e9[0] == evs[9]);
    lemma_data_run_unfold(d9, e9);
    let d10 = data_step_model(d9, e9[0]).0;
    let e10 = e9.drop_first();
    assert(d10.dic.state is AwaitWrite);
    assert(e10 =~= evs.skip(10));
    assert(e10[0] == evs[10]);
    lemma_data_run_unfold(d10, e10);
    let d11 = data_step_model(d10, e10[0]).0;
    let e11 = e10.drop_first();
    assert(d11.dic.state is AwaitDelete);
    assert(e11 =~= evs.skip(11));
    assert(e11[0] == evs[11]);
    lemma_data_run_unfold(d11, e11);
    let d12 = data_step_model(d11, e11[0]).0;
    let e12 = e11.drop_first();
    assert(e12.len() == 0);
    assert(data_run(d12, e12) =~= Seq::<ActionModel>::empty());
    assert(data_valid_run(d12, e12));
    assert(data_run(d11, e11) =~= seq![data_step_model(d11, e11[0]).1]);
    assert(data_run(d10, e10) =~= seq![data_step_model(d10, e10[0]).1] + data_run(d11, e11));
    assert(data_run(d9, e9) =~= seq![data_step_model(d9, e9[0]).1] + data_run(d10, e10));
    assert(data_run(d8, e8) =~= seq![data_step_model(d8, e8[0]).1] + data_run(d9, e9));
    assert(data_run(d7, e7) =~= seq![data_step_model(d7, e7[0]).1] + data_run(d8, e8));
    assert(data_run(d6, e6) =~= seq![data_step_model(d6, e6[0]).1] + data_run(d7, e7));
    assert(data_run(d5, e5) =~= seq![data_step_model(d5, e5[0]).1] + data_run(d6, e6));
    assert(data_run(d4, e4) =~= seq![data_step_model(d4, e4[0]).1] + data_run(d5, e5));
    assert(data_run(d3, e3) =~= seq![data_step_model(d3, e3[0]).1] + data_run(d4, e4));
    assert(data_run(d2, e2) =~= seq![data_step_model(d2, e2[0]).1] + data_run(d3, e3));
    assert(data_run(d1, e1) =~= seq![data_step_model(d1, e1[0]).1] + data_run(d2, e2));
    assert(data_run(dm, e0) =~= seq![data_step_model(dm, e0[0]).1] + data_run(d1, e1));
}

/// Within one run of the two-file machine, the affix file is fully resolved
/// before the dictionary file's resolution begins: while the affix machine
/// runs, the dictionary machine does not move, and the dictionary phase opens
/// only on the affix file's successful finish.
pub proof fn lemma_affix_resolved_first(dm: DataModel, ev: EventModel)
    requires
        !dm.doing_dic,
    ensures
        data_step_model(dm, ev).0.dic == dm.dic,
        data_step_model(dm, ev).0.doing_dic ==> step_model(dm.aff, ev).1 == (ActionModel::Finish {
            result: Result::<(), ErrorModel>::Ok(()),
        }),
{
}

/// Resolves the two data files of one language: the affix file completely
/// first, then the dictionary file, short-circuiting on the first failure.
pub struct DataResolver {
    pub aff: FileResolver,
    pub dic: FileResolver,
    pub doing_dic: bool,
}

impl View for DataResolver {
    type V = DataModel;

    open spec fn view(&self) -> DataModel {
        DataModel { aff: self.aff@, dic: self.dic@, doing_dic: self.doing_dic }
    }
}

impl DataResolver {
    /// The first action: look for the final affix file.
    pub fn start(&self) -> (a: Action)
        requires
            !self@.doing_dic,
            self@.aff.state is AwaitFinalCheck,
        ensures
            a@ == (ActionModel::CheckFinal { path: self@.aff.final_path }),
    {
        self.aff.start()
    }

    /// Answers the pending action's event with the next action, moving the
    /// machine exactly as the model transition says.
    pub fn step(&mut self, ev: Event) -> (a: Action)
        requires
            data_accepts(old(self)@, ev@),
            data_wf(old(self)@),
        ensures
            final(self)@ == data_step_model(old(self)@, ev@).0,
            a@ == data_step_model(old(self)@, ev@).1,
            data_wf(final(self)@),
    {
        if !self.doing_dic {
            let a = self.aff.step(ev);
            let finished_ok = match &a {
                Action::Finish { result: Result::Ok(()) } => true,
                _ => false,
            };
            if finished_ok {
                self.doing_dic = true;
                self.dic.start()
            } else {
                a
            }
        } else {
            self.dic.step(ev)
        }
    }

    /// Both files are settled when the dictionary machine has finished.
    pub fn is_done(&self) -> (r: bool)
        ensures
            r == (self@.doing_dic && self@.dic.state is Done),
    {
        self.doing_dic && self.dic.is_done()
    }
}

} // verus!
