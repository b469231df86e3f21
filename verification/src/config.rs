//! The declarative configuration of the resolution pipeline: an ordered list
//! of local search directories, and for each language code the pair of URLs
//! its two data files can be fetched from.

use vstd::prelude::*;
use vstd::string::StringExecFns;

verus! {

/// The two source URLs of one language: one for the affix file, one for the
/// dictionary file.
pub struct SourceConfig {
    pub aff: String,
    pub dic: String,
}

/// The `dictionaries` section: the search directories, in priority order, and
/// the per-language sources, keyed by language code.
pub struct DictionariesConfig {
    pub directories: Vec<String>,
    pub sources: Vec<(String, SourceConfig)>,
}

/// The whole loaded configuration. Immutable after load.
pub struct Config {
    pub dictionaries: DictionariesConfig,
}

/// Model of a [`SourceConfig`]: the two URLs as sequences.
pub struct SourceModel {
    pub aff: Seq<char>,
    pub dic: Seq<char>,
}

/// Model of a [`Config`].
pub struct ConfigModel {
    pub directories: Seq<Seq<char>>,
    pub sources: Seq<(Seq<char>, SourceModel)>,
}

impl View for SourceConfig {
    type V = SourceModel;

    open spec fn view(&self) -> SourceModel {
        SourceModel { aff: self.aff@, dic: self.dic@ }
    }
}

impl View for Config {
    type V = ConfigModel;

    open spec fn view(&self) -> ConfigModel {
        ConfigModel {
            directories: self.dictionaries.directories.deep_view(),
            sources: Seq::new(
                self.dictionaries.sources@.len(),
                |i: int|
                    (self.dictionaries.sources@[i].0@, self.dictionaries.sources@[i].1@),
            ),
        }
    }
}

/// Language codes are unique keys: no two entries of `sources` name the same
/// language.
pub open spec fn wf_config(c: ConfigModel) -> bool {
    forall|i: int, j: int|
        0 <= i < j < c.sources.len() ==> c.sources[i].0 != c.sources[j].0
}

/// The sources configured for a language: the first entry with that key, or
/// none. With unique keys, the first entry is the only one.
pub open spec fn source_for(sources: Seq<(Seq<char>, SourceModel)>, lang: Seq<char>) -> Option<
    SourceModel,
>
    decreases sources.len(),
{
    if sources.len() == 0 {
        Option::None
    } else if sources[0].0 == lang {
        Option::Some(sources[0].1)
    } else {
        source_for(sources.drop_first(), lang)
    }
}

impl Config {
    /// Looks the language up in `sources`, scanning the entries in order.
    pub fn source_for_lang(&self, lang: &str) -> (r: Option<&SourceConfig>)
        ensures
            match r {
                Option::Some(s) => source_for(self@.sources, lang@) == Option::Some(s@),
                Option::None => source_for(self@.sources, lang@) is None,
            },
    {
        let key = String::from_str(lang);
        let n = self.dictionaries.sources.len();
        let mut i: usize = 0;
        proof {
            assert(self@.sources.skip(0) =~= self@.sources);
        }
        while i < n
            invariant
                i <= n,
                n == self.dictionaries.sources@.len(),
                key@ == lang@,
                source_for(self@.sources, lang@) == source_for(
                    self@.sources.skip(i as int),
                    lang@,
                ),
            decreases n - i,
        {
            let entry = &self.dictionaries.sources[i];
            proof {
                assert(self@.sources.skip(i as int)[0] == self@.sources[i as int]);
            }
            if entry.0 == key {
                return Option::Some(&entry.1);
            }
            proof {
                assert(self@.sources.skip(i as int).drop_first() =~= self@.sources.skip(i + 1));
            }
            i = i + 1;
        }
        proof {
            assert(self@.sources.skip(i as int) =~= Seq::<(Seq<char>, SourceModel)>::empty());
        }
        Option::None
    }
}

} // verus!
