//! Compiling a configuration into the sections of a pipeline.
//!
//! Input plugins are created through a `PluginProvider`; each one it cannot
//! create, and each conditional statement in an input section, adds a
//! diagnostic. Compiling never stops early: every problem is reported.
use vstd::prelude::*;

use crate::ast::{Branch, Config, Plugin, PluginType};
use crate::pipeline::{FilterSection, InputSection, OutputSection};
use crate::plugin::{Error, InputPlugin, PluginProvider};
use crate::visit::{config_visits, is_trace, walk_config, Visit, Visitor};

verus! {

pub const CANNOT_CREATE_INPUT: &'static str = "Cannot create input plugin";

pub const CONDITIONAL_INPUTS: &'static str = "Conditional inputs are forbidden";

/// What compiling produced: the diagnostics, and the compiled sections.
///
/// A session with diagnostics must not be run.
pub struct Session {
    pub errors: Vec<&'static str>,
    pub inputs: InputSection,
    pub filters: FilterSection,
    pub outputs: OutputSection,
}

pub open spec fn messages(errors: Seq<&'static str>) -> Seq<Seq<char>> {
    errors.map_values(|e: &'static str| e@)
}

/// The names of the input plugins among the visits `h`, in order: the
/// names handed to the provider.
pub open spec fn input_names(h: Seq<Visit>) -> Seq<Seq<char>>
    decreases h.len(),
{
    if h.len() == 0 {
        seq![]
    } else {
        let before = input_names(h.drop_last());
        match h.last() {
            Visit::Plugin(PluginType::Input, n) => before.push(n),
            _ => before,
        }
    }
}

/// The diagnostics for the visits `h`, where `rs[k]` is the provider's
/// answer for the `k`-th input plugin.
pub open spec fn diagnostics(h: Seq<Visit>, rs: Seq<Result<InputPlugin, Error>>) -> Seq<Seq<char>>
    decreases h.len(),
{
    if h.len() == 0 {
        seq![]
    } else {
        match h.last() {
            Visit::Plugin(PluginType::Input, _) => {
                let before = diagnostics(h.drop_last(), rs.drop_last());
                if rs.last() is Ok {
                    before
                } else {
                    before.push(CANNOT_CREATE_INPUT@)
                }
            },
            Visit::Branch(PluginType::Input, _) => diagnostics(h.drop_last(), rs).push(
                CONDITIONAL_INPUTS@,
            ),
            _ => diagnostics(h.drop_last(), rs),
        }
    }
}

/// The input plugins kept over the visits `h`: the ones the provider
/// created, in order.
pub open spec fn created(h: Seq<Visit>, rs: Seq<Result<InputPlugin, Error>>) -> Seq<InputPlugin>
    decreases h.len(),
{
    if h.len() == 0 {
        seq![]
    } else {
        match h.last() {
            Visit::Plugin(PluginType::Input, _) => {
                let before = created(h.drop_last(), rs.drop_last());
                match rs.last() {
                    Ok(p) => before.push(p),
                    Err(_) => before,
                }
            },
            _ => created(h.drop_last(), rs),
        }
    }
}

/// The session is what the visits `h` call for, where `rs` are the answers
/// that `provider` gave for the input plugins' names, one per name.
pub open spec fn compiled<P: PluginProvider>(
    provider: &P,
    sess: Session,
    h: Seq<Visit>,
    rs: Seq<Result<InputPlugin, Error>>,
) -> bool {
    &&& rs.len() == input_names(h).len()
    &&& forall|k: int|
        0 <= k < rs.len() ==> #[trigger] provider.answers(input_names(h)[k], rs[k])
    &&& messages(sess.errors@) == diagnostics(h, rs)
    &&& sess.inputs.inputs@ == created(h, rs)
}

pub struct Compiler<'a, P: PluginProvider> {
    pub plugin_provider: &'a P,
    pub sess: Session,
    /// The statements visited so far.
    pub history: Ghost<Seq<Visit>>,
    /// The provider's answer for each input plugin visited so far.
    pub results: Ghost<Seq<Result<InputPlugin, Error>>>,
}

impl<'a, P: PluginProvider> Compiler<'a, P> {
    pub fn new(plugin_provider: &'a P) -> (r: Compiler<'a, P>)
        ensures
            r.plugin_provider == plugin_provider,
            r.history@ == Seq::<Visit>::empty(),
            r.results@ == Seq::<Result<InputPlugin, Error>>::empty(),
            r.sess.errors@.len() == 0,
            r.sess.inputs.inputs@.len() == 0,
            compiled(r.plugin_provider, r.sess, r.history@, r.results@),
    {
        let r = Compiler {
            plugin_provider,
            sess: Session {
                errors: Vec::new(),
                inputs: InputSection::new(),
                filters: FilterSection::new(),
                outputs: OutputSection::new(),
            },
            history: Ghost(Seq::empty()),
            results: Ghost(Seq::empty()),
        };
        assert(messages(r.sess.errors@) =~= seq![]);
        assert(r.sess.inputs.inputs@ =~= seq![]);
        r
    }

    /// Records a visit that adds no diagnostic and creates nothing.
    fn pass(&mut self, Ghost(v): Ghost<Visit>)
        requires
            old(self).inv(),
            !(v matches Visit::Plugin(PluginType::Input, _)),
            !(v matches Visit::Branch(PluginType::Input, _)),
        ensures
            Self::step(*old(self), v, *final(self)),
            Self::inv(*final(self)),
    {
        let ghost h = self.history@;
        self.history = Ghost(h.push(v));
        assert(self.history@.drop_last() =~= h);
    }
}

impl<'a, P: PluginProvider> Visitor for Compiler<'a, P> {
    open spec fn inv(self) -> bool {
        compiled(self.plugin_provider, self.sess, self.history@, self.results@)
    }

    /// An input plugin is asked of the provider: its instance is kept, or a
    /// diagnostic is added; an input branch adds a diagnostic; other
    /// statements change nothing.
    open spec fn step(self, v: Visit, next: Self) -> bool {
        &&& next.plugin_provider == self.plugin_provider
        &&& next.history@ == self.history@.push(v)
        &&& match v {
            Visit::Plugin(PluginType::Input, name) => {
                let r = next.results@.last();
                &&& next.results@ == self.results@.push(r)
                &&& self.plugin_provider.answers(name, r)
                &&& match r {
                    Ok(p) => next.sess.inputs.inputs@ == self.sess.inputs.inputs@.push(p)
                        && next.sess.errors@ == self.sess.errors@,
                    Err(_) => next.sess.errors@ == self.sess.errors@.push(CANNOT_CREATE_INPUT)
                        && next.sess.inputs.inputs@ == self.sess.inputs.inputs@,
                }
            },
            Visit::Branch(PluginType::Input, _) => {
                &&& next.results@ == self.results@
                &&& next.sess.errors@ == self.sess.errors@.push(CONDITIONAL_INPUTS)
                &&& next.sess.inputs.inputs@ == self.sess.inputs.inputs@
            },
            _ => {
                &&& next.results@ == self.results@
                &&& next.sess.errors@ == self.sess.errors@
                &&& next.sess.inputs.inputs@ == self.sess.inputs.inputs@
            },
        }
    }

    fn visit_input_plugin(&mut self, plugin: &Plugin) {
        let ghost h = self.history@;
        let ghost rs = self.results@;
        let ghost v = Visit::Plugin(PluginType::Input, plugin@);
        let r = self.plugin_provider.create_input(plugin.name.as_str());
        let ghost answer = r;
        match r {
            Ok(p) => {
                self.sess.inputs.add_plugin(p);
            },
            Err(_) => {
                self.sess.errors.push(CANNOT_CREATE_INPUT);
                assert(messages(self.sess.errors@) =~= messages(old(self).sess.errors@).push(
                    CANNOT_CREATE_INPUT@,
                ));
            },
        }
        self.results = Ghost(rs.push(answer));
        self.history = Ghost(h.push(v));
        proof {
            assert(self.history@.drop_last() =~= h);
            assert(self.results@.drop_last() =~= rs);
            assert(input_names(self.history@) == input_names(h).push(plugin@));
            let names = input_names(self.history@);
            assert forall|k: int| 0 <= k < self.results@.len() implies #[trigger] self.plugin_provider.answers(
                names[k],
                self.results@[k],
            ) by {
                if k < rs.len() {
                    assert(self.plugin_provider.answers(input_names(h)[k], rs[k]));
                }
            }
        }
    }

    fn visit_input_branch(&mut self, branch: &Branch) {
        let ghost h = self.history@;
        let ghost rs = self.results@;
        self.sess.errors.push(CONDITIONAL_INPUTS);
        assert(messages(self.sess.errors@) =~= messages(old(self).sess.errors@).push(
            CONDITIONAL_INPUTS@,
        ));
        self.history = Ghost(h.push(Visit::Branch(PluginType::Input, branch@)));
        assert(self.history@.drop_last() =~= h);
    }

    fn visit_filter_plugin(&mut self, plugin: &Plugin) {
        self.pass(Ghost(Visit::Plugin(PluginType::Filter, plugin@)));
    }

    fn visit_filter_branch(&mut self, branch: &Branch) {
        self.pass(Ghost(Visit::Branch(PluginType::Filter, branch@)));
    }

    fn visit_output_plugin(&mut self, plugin: &Plugin) {
        self.pass(Ghost(Visit::Plugin(PluginType::Output, plugin@)));
    }

    fn visit_output_branch(&mut self, branch: &Branch) {
        self.pass(Ghost(Visit::Branch(PluginType::Output, branch@)));
    }
}

/// Along a walk, each hook extends the history by its visit.
proof fn lemma_history<'a, P: PluginProvider>(
    trace: Seq<Compiler<'a, P>>,
    start: Compiler<'a, P>,
    vs: Seq<Visit>,
    end: Compiler<'a, P>,
)
    requires
        is_trace(trace, start, vs, end),
    ensures
        end.history@ == start.history@ + vs,
        end.plugin_provider == start.plugin_provider,
    decreases vs.len(),
{
    if vs.len() == 0 {
        assert(start.history@ + vs =~= start.history@);
    } else {
        let n = vs.len() - 1;
        let mid = trace[n];
        assert(Compiler::<'a, P>::step(trace[n], vs[n], trace[n + 1]));
        assert forall|k: int| 0 <= k < vs.drop_last().len() implies #[trigger] Compiler::<
            'a,
            P,
        >::step(trace.drop_last()[k], vs.drop_last()[k], trace.drop_last()[k + 1]) by {
            assert(Compiler::<'a, P>::step(trace[k], vs[k], trace[k + 1]));
        }
        lemma_history(trace.drop_last(), start, vs.drop_last(), mid);
        assert(start.history@ + vs =~= (start.history@ + vs.drop_last()).push(vs[n]));
    }
}

/// Compiles `config`, creating its input plugins with `plugin_provider`.
///
/// The provider is asked once for each input plugin of the input sections,
/// in order, by name (`input_names`); the diagnostics and the instances kept
/// are those that the statements call for, given its answers.
pub fn compile<P: PluginProvider>(config: &Config, plugin_provider: &P) -> (sess: Session)
    ensures
        exists|rs: Seq<Result<InputPlugin, Error>>|
            compiled(plugin_provider, sess, config_visits(config@), rs),
{
    let mut compiler = Compiler::new(plugin_provider);
    let ghost start = compiler;
    walk_config(&mut compiler, config);
    proof {
        let t = choose|t: Seq<Compiler<'_, P>>| is_trace(t, start, config_visits(config@), compiler);
        lemma_history(t, start, config_visits(config@), compiler);
        assert(start.history@ + config_visits(config@) =~= config_visits(config@));
        assert(compiled(plugin_provider, compiler.sess, config_visits(config@), compiler.results@));
    }
    compiler.sess
}

} // verus!
