use bert::{command_names, Base, Candidate, Command, Module, ModuleError, ModuleLoader};
use std::path::PathBuf;

struct Named(String);

impl Command for Named {
    fn name(&self) -> &str {
        &self.0
    }
}

struct Plugin {
    name: String,
    commands: Vec<String>,
    build: u32,
}

impl Plugin {
    fn new(name: &str, commands: &[&str], build: u32) -> Plugin {
        Plugin {
            name: name.to_string(),
            commands: commands.iter().map(|c| c.to_string()).collect(),
            build,
        }
    }
}

impl Module for Plugin {
    fn name(&self) -> &str {
        &self.name
    }

    fn commands(&self) -> Vec<Box<dyn Command>> {
        let mut out: Vec<Box<dyn Command>> = Vec::new();
        for c in &self.commands {
            out.push(Box::new(Named(c.clone())));
        }
        out
    }
}

fn image() -> libloading::Library {
    libloading::os::unix::Library::this().into()
}

fn candidate(name: &str, commands: &[&str], build: u32, staged: &str) -> Candidate<Plugin> {
    Candidate {
        module: Plugin::new(name, commands, build),
        lib: image(),
        temp_path: PathBuf::from(staged),
    }
}

fn listing(loader: &ModuleLoader<Plugin>) -> Vec<(String, Vec<String>, u32)> {
    loader
        .modules()
        .iter()
        .map(|m| (m.name().to_string(), command_names(*m), m.build))
        .collect()
}

fn with_base() -> ModuleLoader<Plugin> {
    let mut loader: ModuleLoader<Plugin> = ModuleLoader::new();
    let r = loader.load(PathBuf::from("/lib/libbase.so"), Ok(candidate("base", &["ping"], 1, "/tmp/base_1")));
    assert_eq!(r.unwrap(), "base");
    loader
}

#[test]
fn load_lists_one_module() {
    let loader = with_base();
    assert_eq!(listing(&loader), vec![("base".to_string(), vec!["ping".to_string()], 1)]);
}

#[test]
fn reload_shows_new_commands() {
    let mut loader = with_base();
    assert_eq!(loader.reload_source("base").unwrap(), &PathBuf::from("/lib/libbase.so"));
    let r = loader.reload("base", Ok(candidate("base", &["ping", "pong"], 2, "/tmp/base_2")));
    assert_eq!(r.unwrap(), "base");
    assert_eq!(
        listing(&loader),
        vec![("base".to_string(), vec!["ping".to_string(), "pong".to_string()], 2)]
    );
    assert_eq!(loader.reload_source("base").unwrap(), &PathBuf::from("/lib/libbase.so"));
    assert_eq!(loader.take_stale(), vec![PathBuf::from("/tmp/base_1")]);
}

#[test]
fn reload_of_broken_artifact_keeps_module() {
    let mut loader = with_base();
    let r = loader.reload("base", Err(ModuleError::Library(libloading::Error::DlOpenUnknown)));
    assert!(matches!(r, Err(ModuleError::Library(libloading::Error::DlOpenUnknown))));
    assert_eq!(listing(&loader), vec![("base".to_string(), vec!["ping".to_string()], 1)]);
    assert_eq!(loader.reload_source("base").unwrap(), &PathBuf::from("/lib/libbase.so"));
    assert!(loader.take_stale().is_empty());
}

#[test]
fn reload_of_missing_symbol_keeps_module() {
    let mut loader = with_base();
    let r = loader.reload("base", Err(ModuleError::Library(libloading::Error::DlSymUnknown)));
    assert!(matches!(r, Err(ModuleError::Library(libloading::Error::DlSymUnknown))));
    assert_eq!(listing(&loader), vec![("base".to_string(), vec!["ping".to_string()], 1)]);
}

#[test]
fn reload_after_failed_staging_keeps_module() {
    let mut loader = with_base();
    let io = std::io::Error::new(std::io::ErrorKind::PermissionDenied, "denied");
    let r = loader.reload("base", Err(ModuleError::Io(io)));
    assert!(matches!(r, Err(ModuleError::Io(e)) if e.kind() == std::io::ErrorKind::PermissionDenied));
    assert_eq!(listing(&loader), vec![("base".to_string(), vec!["ping".to_string()], 1)]);
}

#[test]
fn reload_of_absent_name_is_not_found() {
    let mut loader = with_base();
    assert!(matches!(loader.reload_source("ghost"), Err(ModuleError::ModuleNotFound(n)) if n == "ghost"));
    let r = loader.reload("ghost", Err(ModuleError::Library(libloading::Error::DlOpenUnknown)));
    assert!(matches!(r, Err(ModuleError::ModuleNotFound(n)) if n == "ghost"));
    assert_eq!(listing(&loader), vec![("base".to_string(), vec!["ping".to_string()], 1)]);
    assert!(loader.take_stale().is_empty());
}

#[test]
fn reload_of_absent_name_gives_up_candidate() {
    let mut loader = with_base();
    let r = loader.reload("ghost", Ok(candidate("ghost", &[], 9, "/tmp/ghost_1")));
    assert!(matches!(r, Err(ModuleError::ModuleNotFound(n)) if n == "ghost"));
    assert_eq!(listing(&loader), vec![("base".to_string(), vec!["ping".to_string()], 1)]);
    assert_eq!(loader.take_stale(), vec![PathBuf::from("/tmp/ghost_1")]);
}

#[test]
fn reload_of_empty_registry_is_not_found() {
    let mut loader: ModuleLoader<Plugin> = ModuleLoader::new();
    let r = loader.reload("base", Err(ModuleError::Library(libloading::Error::DlOpenUnknown)));
    assert!(matches!(r, Err(ModuleError::ModuleNotFound(n)) if n == "base"));
    assert!(loader.modules().is_empty());
}

#[test]
fn reload_of_builtin_is_refused() {
    let mut loader: ModuleLoader<Plugin> = ModuleLoader::new();
    loader.insert(Plugin::new("core", &["help"], 5));
    assert!(matches!(loader.reload_source("core"), Err(ModuleError::NoReload(n)) if n == "core"));
    let r = loader.reload("core", Ok(candidate("core", &["help", "more"], 6, "/tmp/core_1")));
    assert!(matches!(r, Err(ModuleError::NoReload(n)) if n == "core"));
    assert_eq!(listing(&loader), vec![("core".to_string(), vec!["help".to_string()], 5)]);
    assert_eq!(loader.take_stale(), vec![PathBuf::from("/tmp/core_1")]);
    let r = loader.reload("core", Err(ModuleError::Library(libloading::Error::DlOpenUnknown)));
    assert!(matches!(r, Err(ModuleError::NoReload(n)) if n == "core"));
    assert_eq!(listing(&loader), vec![("core".to_string(), vec!["help".to_string()], 5)]);
}

#[test]
fn reload_of_builtin_base_is_refused() {
    let mut loader: ModuleLoader<Base> = ModuleLoader::new();
    assert_eq!(loader.insert(Base), "base");
    let r = loader.reload("base", Err(ModuleError::Library(libloading::Error::DlOpenUnknown)));
    assert!(matches!(r, Err(ModuleError::NoReload(n)) if n == "base"));
    assert_eq!(loader.modules().len(), 1);
    assert_eq!(command_names(loader.get("base").unwrap()), vec!["ping".to_string()]);
}

#[test]
fn reload_with_other_name_is_a_mismatch() {
    let mut loader = with_base();
    let r = loader.reload("base", Ok(candidate("basic", &["ping", "pong"], 2, "/tmp/base_2")));
    match r {
        Err(ModuleError::NameMismatch { expected, actual }) => {
            assert_eq!(expected, "base");
            assert_eq!(actual, "basic");
        }
        _ => panic!("expected a name mismatch"),
    }
    assert_eq!(listing(&loader), vec![("base".to_string(), vec!["ping".to_string()], 1)]);
    assert!(loader.get("basic").is_none());
    assert_eq!(loader.reload_source("base").unwrap(), &PathBuf::from("/lib/libbase.so"));
    assert_eq!(loader.take_stale(), vec![PathBuf::from("/tmp/base_2")]);
}

#[test]
fn reload_keeps_other_modules_and_order() {
    let mut loader: ModuleLoader<Plugin> = ModuleLoader::new();
    loader.insert(Plugin::new("first", &[], 1));
    loader.load(PathBuf::from("/lib/mid.so"), Ok(candidate("mid", &["a"], 1, "/tmp/mid_1"))).unwrap();
    loader.insert(Plugin::new("last", &[], 1));
    let r = loader.reload("mid", Ok(candidate("mid", &["a", "b"], 2, "/tmp/mid_2")));
    assert_eq!(r.unwrap(), "mid");
    assert_eq!(
        listing(&loader),
        vec![
            ("first".to_string(), vec![], 1),
            ("mid".to_string(), vec!["a".to_string(), "b".to_string()], 2),
            ("last".to_string(), vec![], 1),
        ]
    );
}

#[test]
fn repeated_reload_is_stable() {
    let mut loader = with_base();
    for round in 2..7u32 {
        let staged = format!("/tmp/base_{}", round);
        let r = loader.reload("base", Ok(candidate("base", &["ping"], round, &staged)));
        assert_eq!(r.unwrap(), "base");
        assert_eq!(listing(&loader), vec![("base".to_string(), vec!["ping".to_string()], round)]);
        let previous = format!("/tmp/base_{}", round - 1);
        assert_eq!(loader.take_stale(), vec![PathBuf::from(previous)]);
    }
    assert_eq!(loader.teardown(), vec![PathBuf::from("/tmp/base_6")]);
}

#[test]
fn reload_after_failure_still_works() {
    let mut loader = with_base();
    let r = loader.reload("base", Err(ModuleError::Library(libloading::Error::DlOpenUnknown)));
    assert!(r.is_err());
    let r = loader.reload("base", Ok(candidate("other", &[], 2, "/tmp/base_2")));
    assert!(r.is_err());
    let r = loader.reload("base", Ok(candidate("base", &["ping", "pong"], 3, "/tmp/base_3")));
    assert_eq!(r.unwrap(), "base");
    assert_eq!(
        listing(&loader),
        vec![("base".to_string(), vec!["ping".to_string(), "pong".to_string()], 3)]
    );
    assert_eq!(loader.take_stale(), vec![PathBuf::from("/tmp/base_2"), PathBuf::from("/tmp/base_1")]);
}
