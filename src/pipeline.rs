//! The compiled sections of a pipeline, and how an input section fans its
//! plugins out into independent instances, one per worker.
use vstd::prelude::*;

use crate::plugin::{copies, InputPlugin};

verus! {

/// `p` after its one-time setup.
pub open spec fn registered(p: InputPlugin) -> InputPlugin {
    InputPlugin { registered: true, ..p }
}

/// The instances that `ps` run as, in order: each plugin as many times as
/// it asks for, registered.
pub open spec fn fanned_out(ps: Seq<InputPlugin>) -> Seq<InputPlugin>
    decreases ps.len(),
{
    if ps.len() == 0 {
        seq![]
    } else {
        fanned_out(ps.drop_last()) + Seq::new(copies(ps.last()), |k: int| registered(ps.last()))
    }
}

/// The input plugins of a compiled configuration.
pub struct InputSection {
    pub inputs: Vec<InputPlugin>,
}

impl InputSection {
    pub fn new() -> (r: InputSection)
        ensures
            r.inputs@.len() == 0,
    {
        InputSection { inputs: Vec::new() }
    }

    pub fn add_plugin(&mut self, input: InputPlugin)
        ensures
            final(self).inputs@ == old(self).inputs@.push(input),
    {
        self.inputs.push(input);
    }

    /// The number of plugins held.
    pub fn count(&self) -> (r: usize)
        ensures
            r == self.inputs@.len(),
    {
        self.inputs.len()
    }

    /// Hands out every instance to run, each registered and each meant for
    /// a worker of its own; the section keeps none of them.
    pub fn fan_out(&mut self) -> (r: Vec<InputPlugin>)
        ensures
            r@ == fanned_out(old(self).inputs@),
            final(self).inputs@.len() == 0,
    {
        let mut instances: Vec<InputPlugin> = Vec::new();
        let mut i: usize = 0;
        while i < self.inputs.len()
            invariant
                i <= self.inputs@.len(),
                self.inputs@ == old(self).inputs@,
                instances@ == fanned_out(self.inputs@.subrange(0, i as int)),
            decreases self.inputs@.len() - i,
        {
            let input = &self.inputs[i];
            let n = input.threads_count();
            let ghost before = instances@;
            let mut k: usize = 0;
            while k < n
                invariant
                    i < self.inputs@.len(),
                    self.inputs@ == old(self).inputs@,
                    k <= n,
                    n == copies(self.inputs@[i as int]),
                    instances@ == before + Seq::new(k as nat, |j: int| registered(self.inputs@[i as int])),
                decreases n - k,
            {
                let mut copy = self.inputs[i].duplicate();
                copy.register();
                instances.push(copy);
                k = k + 1;
                assert(instances@ =~= before + Seq::new(k as nat, |j: int| registered(self.inputs@[i as int])));
            }
            proof {
                let done = self.inputs@.subrange(0, i + 1);
                assert(done.drop_last() =~= self.inputs@.subrange(0, i as int));
            }
            i = i + 1;
        }
        assert(self.inputs@.subrange(0, i as int) =~= self.inputs@);
        self.inputs = Vec::new();
        instances
    }
}

/// The filter plugins of a compiled configuration; none are run yet.
pub struct FilterSection {}

impl FilterSection {
    pub fn new() -> (r: FilterSection) {
        FilterSection {}
    }
}

/// The output plugins of a compiled configuration; none are run yet.
pub struct OutputSection {}

impl OutputSection {
    pub fn new() -> (r: OutputSection) {
        OutputSection {}
    }
}

/// One instance of an input plugin, run on a worker of its own.
pub struct InputWorker {
    pub input: InputPlugin,
}

impl InputWorker {
    /// Runs the instance to completion.
    pub fn run(&mut self)
        ensures
            final(self).input.stopped,
            final(self).input.threads == old(self).input.threads,
            final(self).input.registered == old(self).input.registered,
    {
        self.input.run();
    }
}

/// The three compiled sections, ready to run.
pub struct Pipeline {
    pub inputs: InputSection,
    pub filters: FilterSection,
    pub outputs: OutputSection,
}

impl Pipeline {
    pub fn new(inputs: InputSection, filters: FilterSection, outputs: OutputSection) -> (r: Pipeline)
        ensures
            r.inputs == inputs,
    {
        Pipeline { inputs, filters, outputs }
    }

    /// The workers to start: one per instance of every input plugin.
    pub fn start_workers(&mut self) -> (r: Vec<InputWorker>)
        ensures
            r@.len() == fanned_out(old(self).inputs.inputs@).len(),
            forall|k: int| 0 <= k < r@.len() ==> r@[k].input == fanned_out(old(self).inputs.inputs@)[k],
            final(self).inputs.inputs@.len() == 0,
    {
        let mut instances = self.inputs.fan_out();
        let ghost all = instances@;
        let mut workers: Vec<InputWorker> = Vec::new();
        while instances.len() > 0
            invariant
                workers@.len() + instances@.len() == all.len(),
                instances@ == all.subrange(workers@.len() as int, all.len() as int),
                forall|k: int| 0 <= k < workers@.len() ==> workers@[k].input == all[k],
            decreases instances@.len(),
        {
            let input = instances.remove(0);
            workers.push(InputWorker { input });
            assert(instances@ =~= all.subrange(workers@.len() as int, all.len() as int));
        }
        workers
    }
}

/// A plugin that asks for `n > 1` threads runs as `n` instances, each an
/// independent registered copy of it; any other runs as one.
pub proof fn lemma_fan_out_one(p: InputPlugin)
    ensures
        fanned_out(seq![p]).len() == if p.threads > 1 { p.threads as nat } else { 1 },
        forall|k: int| 0 <= k < fanned_out(seq![p]).len() ==> #[trigger] fanned_out(seq![p])[k]
            == registered(p),
{
    let ps = seq![p];
    assert(ps.drop_last() =~= Seq::<InputPlugin>::empty());
    assert(fanned_out(Seq::<InputPlugin>::empty()) == Seq::<InputPlugin>::empty());
    assert(ps.last() == p);
    assert(fanned_out(ps) =~= Seq::new(copies(p), |k: int| registered(p)));
}

} // verus!
