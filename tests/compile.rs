use std::collections::HashSet;

use echelon0::ast::{BranchOrPlugin, Config, Plugin, PluginSection, PluginType};
use echelon0::compile::compile;
use echelon0::parser::parse;
use echelon0::pipeline::{InputSection, Pipeline};
use echelon0::plugin::{Error as PFError, InputPlugin, PluginFactory, PluginProvider};

struct DummyFactory {
    inputs: HashSet<&'static str>,
    filters: HashSet<&'static str>,
    outputs: HashSet<&'static str>,
}

impl DummyFactory {
    fn new(inputs: Vec<&'static str>, filters: Vec<&'static str>, outputs: Vec<&'static str>) -> DummyFactory {
        let mut factory =
            DummyFactory { inputs: HashSet::new(), filters: HashSet::new(), outputs: HashSet::new() };
        for i in inputs {
            factory.inputs.insert(i);
        }
        for f in filters {
            factory.filters.insert(f);
        }
        for o in outputs {
            factory.outputs.insert(o);
        }
        factory
    }
}

impl PluginProvider for DummyFactory {
    fn create_input(&self, name: &str) -> Result<InputPlugin, PFError> {
        if self.inputs.contains(name) {
            Ok(InputPlugin::new())
        } else {
            Err(PFError::PluginNotFound)
        }
    }
}

fn plugin_item(name: &str) -> BranchOrPlugin {
    BranchOrPlugin::Plugin(Plugin { name: name.to_string() })
}

#[test]
fn test_compile_simple() {
    let config = Config {
        sections: vec![
            PluginSection {
                plugin_type: PluginType::Input,
                block: vec![plugin_item("stdin"), plugin_item("file")],
            },
            PluginSection { plugin_type: PluginType::Filter, block: vec![] },
            PluginSection {
                plugin_type: PluginType::Output,
                block: vec![plugin_item("stdout"), plugin_item("file")],
            },
        ],
    };

    let factory = DummyFactory::new(vec!["stdin", "file"], vec![], vec!["stdout", "file"]);

    let sess = compile(&config, &factory);
    assert_eq!(sess.errors.len(), 0);
    assert_eq!(2, sess.inputs.count())
}

#[test]
fn compile_parsed_configuration() {
    let config = parse(b"input{stdin{} file{}} filter{} output{stdout{}}").unwrap();
    let factory = DummyFactory::new(vec!["stdin", "file", "stdout"], vec![], vec![]);
    let sess = compile(&config, &factory);
    assert!(sess.errors.is_empty());
    assert_eq!(2, sess.inputs.count());
}

#[test]
fn conditional_input_is_forbidden() {
    let config = parse(br#"input{ if [x]=="y" { stdin{} } }"#).unwrap();
    let factory = DummyFactory::new(vec!["stdin", "file", "stdout"], vec![], vec![]);
    let sess = compile(&config, &factory);
    assert_eq!(vec!["Conditional inputs are forbidden"], sess.errors);
    assert_eq!(0, sess.inputs.count());
}

#[test]
fn unknown_input_plugin_is_reported() {
    let config = parse(b"input{ bogus{} }").unwrap();
    let factory = DummyFactory::new(vec!["stdin", "file", "stdout"], vec![], vec![]);
    let sess = compile(&config, &factory);
    assert_eq!(vec!["Cannot create input plugin"], sess.errors);
    assert_eq!(0, sess.inputs.count());
}

#[test]
fn every_problem_is_reported() {
    let config =
        parse(b"input{ bogus{} stdin{} if 1 { file{} } other{} } filter { if 1 { x {} } } output { y {} }")
            .unwrap();
    let factory = DummyFactory::new(vec!["stdin"], vec![], vec![]);
    let sess = compile(&config, &factory);
    assert_eq!(
        vec![
            "Cannot create input plugin",
            "Conditional inputs are forbidden",
            "Cannot create input plugin"
        ],
        sess.errors
    );
    assert_eq!(1, sess.inputs.count());
}

#[test]
fn default_factory_creates_every_input() {
    let config = parse(b"input { a {} b {} c {} }").unwrap();
    let sess = compile(&config, &PluginFactory::new());
    assert!(sess.errors.is_empty());
    assert_eq!(3, sess.inputs.count());
}

#[test]
fn fan_out_runs_each_plugin_as_many_times_as_it_asks() {
    let mut inputs = InputSection::new();
    inputs.add_plugin(InputPlugin::with_threads(3));
    inputs.add_plugin(InputPlugin::new());
    inputs.add_plugin(InputPlugin { threads: 0, registered: false, stopped: false });
    let instances = inputs.fan_out();
    assert_eq!(5, instances.len());
    assert_eq!(0, inputs.count());
    assert!(instances.iter().all(|p| p.registered && !p.stopped));
    assert_eq!(vec![3, 3, 3, 1, 1], instances.iter().map(|p| p.threads_count()).collect::<Vec<_>>());
    assert_eq!(vec![3, 3, 3, 1, 0], instances.iter().map(|p| p.threads).collect::<Vec<_>>());
}

#[test]
fn three_threads_give_three_workers() {
    let mut inputs = InputSection::new();
    inputs.add_plugin(InputPlugin::with_threads(3));
    let mut pipeline = Pipeline::new(
        inputs,
        echelon0::pipeline::FilterSection::new(),
        echelon0::pipeline::OutputSection::new(),
    );
    let mut workers = pipeline.start_workers();
    assert_eq!(3, workers.len());
    for w in workers.iter_mut() {
        assert!(!w.input.is_stopped());
        w.run();
        assert!(w.input.is_stopped());
    }
    assert_eq!(0, pipeline.inputs.count());
}

#[test]
fn plugin_lifecycle() {
    let mut p = InputPlugin::new();
    assert_eq!(1, p.threads_count());
    assert!(!p.registered);
    p.register();
    assert!(p.registered);
    assert!(!p.is_stopped());
    let copy = p.duplicate();
    p.request_stop();
    assert!(p.is_stopped());
    assert!(!copy.is_stopped());
    p.run();
    assert!(p.is_stopped());
}

#[test]
fn branches_are_legal_outside_inputs() {
    let config =
        parse(br#"input{} filter{ if [a]=="b" { x{} } } output{ if 1 { y{} } else { z{} } }"#).unwrap();
    let factory = DummyFactory::new(vec![], vec![], vec![]);
    let sess = compile(&config, &factory);
    assert!(sess.errors.is_empty());
    assert_eq!(0, sess.inputs.count());
}

#[test]
fn failures_are_collected_across_sections() {
    let config = parse(b"input{ bogus{} if 1 { stdin{} } stdin{} } input{ bogus2{} }").unwrap();
    let factory = DummyFactory::new(vec!["stdin"], vec![], vec![]);
    let sess = compile(&config, &factory);
    assert_eq!(
        vec![
            "Cannot create input plugin",
            "Conditional inputs are forbidden",
            "Cannot create input plugin"
        ],
        sess.errors
    );
    assert_eq!(1, sess.inputs.count());
}

#[test]
fn thread_count_is_at_least_one() {
    assert_eq!(1, InputPlugin::new().threads_count());
    assert_eq!(4, InputPlugin::with_threads(4).threads_count());
    assert_eq!(1, InputPlugin { threads: 0, registered: false, stopped: false }.threads_count());
}
