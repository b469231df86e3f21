use std::collections::HashMap;

use rspell::config::Config;
use rspell::config::DictionariesConfig;
use rspell::config::SourceConfig;
use rspell::provider::DataResolver;
use rspell::provider::LangProvider;
use rspell::resolver::Action;
use rspell::resolver::Event;
use rspell::resolver::FileResolver;
use rspell::SpellError;

/// An in-memory stand-in for the filesystem and the network: path -> bytes,
/// url -> bytes, and a log of every URL fetched.
struct World {
    files: HashMap<String, Vec<u8>>,
    remote: HashMap<String, Vec<u8>>,
    fetched: Vec<String>,
}

impl World {
    fn new() -> World {
        World {
            files: HashMap::new(),
            remote: HashMap::new(),
            fetched: Vec::new(),
        }
    }

    fn perform(&mut self, action: Action) -> Result<Event, Result<(), SpellError>> {
        match action {
            Action::CheckFinal { path }
            | Action::CheckCache { path }
            | Action::CheckPath { path } => Ok(Event::Exists {
                yes: self.files.contains_key(&path),
            }),
            Action::CopyToCache { from, to } => {
                let content = self.files.get(&from).expect("copy source must exist").clone();
                self.files.insert(to, content);
                Ok(Event::Completed { result: Ok(()) })
            }
            Action::Fetch { url, to } => {
                self.fetched.push(url.clone());
                match self.remote.get(&url) {
                    Some(content) => {
                        self.files.insert(to, content.clone());
                        Ok(Event::Completed { result: Ok(()) })
                    }
                    None => Ok(Event::Completed {
                        result: Err(String::from("transfer failed")),
                    }),
                }
            }
            Action::ReadCache { path } => match self.files.get(&path) {
                Some(content) => Ok(Event::CacheBytes {
                    result: Ok(content.clone()),
                }),
                None => Ok(Event::CacheBytes {
                    result: Err(String::from("no such file")),
                }),
            },
            Action::WriteFinal { path, bytes } => {
                self.files.insert(path, bytes);
                Ok(Event::WroteFinal { result: Ok(()) })
            }
            Action::DeleteCache { path } => {
                self.files.remove(&path);
                Ok(Event::Completed { result: Ok(()) })
            }
            Action::Finish { result } => Err(result),
        }
    }

    fn run_file(&mut self, mut resolver: FileResolver) -> Result<(), SpellError> {
        let mut action = resolver.start();
        loop {
            match self.perform(action) {
                Ok(event) => action = resolver.step(event),
                Err(outcome) => return outcome,
            }
        }
    }

    fn run_data(&mut self, mut resolver: DataResolver) -> Result<(), SpellError> {
        let mut action = resolver.start();
        loop {
            match self.perform(action) {
                Ok(event) => action = resolver.step(event),
                Err(outcome) => return outcome,
            }
        }
    }
}

fn config_with(directories: Vec<&str>, sources: Vec<(&str, &str, &str)>) -> Config {
    Config {
        dictionaries: DictionariesConfig {
            directories: directories.into_iter().map(String::from).collect(),
            sources: sources
                .into_iter()
                .map(|(lang, aff, dic)| {
                    (
                        String::from(lang),
                        SourceConfig {
                            aff: String::from(aff),
                            dic: String::from(dic),
                        },
                    )
                })
                .collect(),
        },
    }
}

fn provider(lang: &str, config: &Config) -> LangProvider {
    LangProvider::new(lang, config, "/data", "/cache")
}

#[test]
fn paths_are_deterministic() {
    let config = config_with(vec![], vec![]);
    let p = provider("en_US", &config);
    assert_eq!(p.aff(), "/data/dictionaries/en_US.aff");
    assert_eq!(p.dic(), "/data/dictionaries/en_US.dic");
}

#[test]
fn ensure_is_idempotent_and_fetches_once() {
    let config = config_with(
        vec![],
        vec![("fr_FR", "https://example/fr.aff", "https://example/fr.dic")],
    );
    let p = provider("fr_FR", &config);
    let mut world = World::new();
    world
        .remote
        .insert(String::from("https://example/fr.aff"), b"SET UTF-8\nSFX\n".to_vec());
    world
        .remote
        .insert(String::from("https://example/fr.dic"), b"1\nbonjour\n".to_vec());

    assert!(world.run_data(p.ensure_data()).is_ok());
    assert_eq!(world.fetched.len(), 2);
    let aff_after_first = world.files.get("/data/dictionaries/fr_FR.aff").unwrap().clone();

    assert!(world.run_data(p.ensure_data()).is_ok());
    assert_eq!(world.fetched.len(), 2, "a second ensure must not fetch again");
    let aff_after_second = world.files.get("/data/dictionaries/fr_FR.aff").unwrap();
    assert_eq!(&aff_after_first, aff_after_second);
}

#[test]
fn first_directory_wins() {
    let config = config_with(vec!["/first", "/second"], vec![]);
    let p = provider("de_DE", &config);
    let mut world = World::new();
    world
        .files
        .insert(String::from("/first/de_DE.aff"), b"from first\n".to_vec());
    world
        .files
        .insert(String::from("/second/de_DE.aff"), b"from second\n".to_vec());
    world
        .files
        .insert(String::from("/first/de_DE.dic"), b"1\nwort\n".to_vec());

    let outcome = world.run_data(p.ensure_data());
    assert!(outcome.is_ok());
    assert_eq!(
        world.files.get("/data/dictionaries/de_DE.aff").unwrap(),
        &b"from first\n".to_vec()
    );
    assert!(world.fetched.is_empty());
}

#[test]
fn encoding_round_trip() {
    // 0xE9 is "e acute" in ISO8859-1; as UTF-8 it is the pair 0xC3 0xA9.
    let config = config_with(vec!["/dicts"], vec![]);
    let p = provider("fr_FR", &config);
    let mut world = World::new();
    world
        .files
        .insert(String::from("/dicts/fr_FR.aff"), b"SET ISO8859-1\nTRY \xE9\n".to_vec());
    world
        .files
        .insert(String::from("/dicts/fr_FR.dic"), b"1\ncaf\xE9\n".to_vec());

    assert!(world.run_data(p.ensure_data()).is_ok());
    assert_eq!(
        world.files.get("/data/dictionaries/fr_FR.aff").unwrap(),
        &b"SET UTF-8\nTRY \xC3\xA9\n".to_vec()
    );
    // The dictionary file has no SET line: treated as UTF-8, copied verbatim.
    assert_eq!(
        world.files.get("/data/dictionaries/fr_FR.dic").unwrap(),
        &b"1\ncaf\xE9\n".to_vec()
    );
}

#[test]
fn no_set_line_copies_bytes_unchanged() {
    let config = config_with(vec!["/dicts"], vec![]);
    let p = provider("nl_NL", &config);
    let mut world = World::new();
    let content = b"word/one\nanother \xC3\xA9\n".to_vec();
    world.files.insert(String::from("/dicts/nl_NL.aff"), content.clone());
    world.files.insert(String::from("/dicts/nl_NL.dic"), b"1\n".to_vec());

    assert!(world.run_data(p.ensure_data()).is_ok());
    assert_eq!(world.files.get("/data/dictionaries/nl_NL.aff").unwrap(), &content);
}

#[test]
fn missing_source_is_terminal() {
    let config = config_with(vec!["/somewhere"], vec![]);
    let p = provider("xx_XX", &config);
    let mut world = World::new();

    let outcome = world.run_file(FileResolver::new(
        p.aff().clone(),
        String::from("/cache/xx_XX.aff"),
        String::from("xx_XX.aff"),
        vec![String::from("/somewhere")],
        None,
    ));
    assert!(matches!(outcome, Err(SpellError::NoDicSource)));
    assert!(world.files.is_empty(), "no cache file and no final file may appear");
    assert!(world.fetched.is_empty());
}

#[test]
fn cache_is_cleaned_up_and_reused() {
    let config = config_with(vec![], vec![("it_IT", "https://example/it.aff", "https://example/it.dic")]);
    let p = provider("it_IT", &config);
    let mut world = World::new();
    world
        .remote
        .insert(String::from("https://example/it.aff"), b"SET UTF-8\n".to_vec());
    world
        .remote
        .insert(String::from("https://example/it.dic"), b"1\nciao\n".to_vec());

    assert!(world.run_data(p.ensure_data()).is_ok());
    assert!(!world.files.contains_key("/cache/it_IT.aff"));
    assert!(!world.files.contains_key("/cache/it_IT.dic"));
}

#[test]
fn removal_is_idempotent() {
    let config = config_with(vec![], vec![]);
    let p = provider("fr_FR", &config);
    let mut world = World::new();

    // Neither final file exists: the plan is empty, deleting nothing succeeds.
    let plan = p.remove_plan(
        world.files.contains_key(p.aff()),
        world.files.contains_key(p.dic()),
    );
    assert!(plan.is_empty());

    // After the files appear, removal deletes both, in order; a second
    // removal is again a no-op success.
    world.files.insert(p.aff().clone(), b"x".to_vec());
    world.files.insert(p.dic().clone(), b"y".to_vec());
    let plan = p.remove_plan(
        world.files.contains_key(p.aff()),
        world.files.contains_key(p.dic()),
    );
    assert_eq!(plan, vec![p.aff().clone(), p.dic().clone()]);
    for path in plan {
        world.files.remove(&path);
    }
    let plan = p.remove_plan(
        world.files.contains_key(p.aff()),
        world.files.contains_key(p.dic()),
    );
    assert!(plan.is_empty());
}

#[test]
fn end_to_end_fetch_then_inspect() {
    let config = config_with(
        vec![],
        vec![("fr_FR", "https://example/fr.aff", "https://example/fr.dic")],
    );
    let p = provider("fr_FR", &config);
    let mut world = World::new();
    world
        .remote
        .insert(String::from("https://example/fr.aff"), b"SET ISO8859-1\nSFX \xE9\n".to_vec());
    world
        .remote
        .insert(String::from("https://example/fr.dic"), b"1\n\xE9l\xE9phant\n".to_vec());

    assert!(world.run_data(p.ensure_data()).is_ok());
    assert_eq!(
        world.fetched,
        vec![
            String::from("https://example/fr.aff"),
            String::from("https://example/fr.dic"),
        ]
    );
    // Both final files exist and are UTF-8 now.
    assert_eq!(
        world.files.get("/data/dictionaries/fr_FR.aff").unwrap(),
        &b"SET UTF-8\nSFX \xC3\xA9\n".to_vec()
    );
    assert!(world.files.contains_key("/data/dictionaries/fr_FR.dic"));
    // No residual cache files.
    assert!(!world.files.contains_key("/cache/fr_FR.aff"));
    assert!(!world.files.contains_key("/cache/fr_FR.dic"));
    // The information surface echoes the configured URLs.
    let source = config.source_for_lang("fr_FR").unwrap();
    assert_eq!(source.aff, "https://example/fr.aff");
    assert_eq!(source.dic, "https://example/fr.dic");
    assert!(config.source_for_lang("en_US").is_none());
}

#[test]
fn on_disk_reports_matches_in_order() {
    let config = config_with(vec!["/a", "/b", "/c"], vec![]);
    let p = provider("en_US", &config);
    let exists = vec![true, false, true];
    let found = p.aff_on_disk(&exists);
    assert_eq!(
        found,
        vec![String::from("/a/en_US.aff"), String::from("/c/en_US.aff")]
    );
    let none = p.dic_on_disk(&vec![false, false, false]);
    assert!(none.is_empty());
}

#[test]
fn fetch_failure_is_a_caching_error() {
    let config = config_with(vec![], vec![("ru_RU", "https://example/ru.aff", "https://example/ru.dic")]);
    let p = provider("ru_RU", &config);
    let mut world = World::new();
    // No remote content: the transfer fails.
    let outcome = world.run_data(p.ensure_data());
    assert!(matches!(outcome, Err(SpellError::FileCachingError { .. })));
    assert!(!world.files.contains_key("/data/dictionaries/ru_RU.aff"));
}
