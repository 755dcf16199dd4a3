//! A walk over a configuration that calls one hook per statement, by
//! section kind and by statement kind.
//!
//! What a hook does is up to the visitor: each states it as a relation
//! `step(before, visit, after)`, and a walk guarantees a chain of such steps
//! over the statements in the order they are declared.
use vstd::prelude::*;

use crate::ast::{
    block_model, item_model, Block, Branch, BranchOrPlugin, Config, Plugin, PluginSection,
    PluginType, SpecCase, SpecItem, SpecSection,
};

verus! {

broadcast use vstd::seq::group_seq_axioms;

/// One call of a hook: the section kind and the statement's model.
pub enum Visit {
    Plugin(PluginType, Seq<char>),
    Branch(PluginType, Seq<SpecCase>),
}

pub open spec fn item_visit(kind: PluginType, it: SpecItem) -> Visit {
    match it {
        SpecItem::Plugin(n) => Visit::Plugin(kind, n),
        SpecItem::Branch(cs) => Visit::Branch(kind, cs),
    }
}

/// The visits of a block's statements, in order.
pub open spec fn block_visits(kind: PluginType, b: Seq<SpecItem>) -> Seq<Visit> {
    b.map_values(|it: SpecItem| item_visit(kind, it))
}

/// The visits of every section's statements, section after section.
pub open spec fn config_visits(c: Seq<SpecSection>) -> Seq<Visit>
    decreases c.len(),
{
    if c.len() == 0 {
        seq![]
    } else {
        config_visits(c.drop_last()) + block_visits(c.last().kind, c.last().block)
    }
}

/// A visitor: six hooks, each stated by one relation, and a state
/// invariant that every hook keeps.
pub trait Visitor: Sized {
    spec fn inv(self) -> bool;

    /// `next` is a state that the hook for `v` may leave `self` in.
    spec fn step(self, v: Visit, next: Self) -> bool;

    fn visit_input_plugin(&mut self, plugin: &Plugin)
        requires
            Self::inv(*old(self)),
        ensures
            Self::inv(*final(self)),
            Self::step(*old(self), Visit::Plugin(PluginType::Input, plugin@), *final(self)),
    ;

    fn visit_input_branch(&mut self, branch: &Branch)
        requires
            Self::inv(*old(self)),
        ensures
            Self::inv(*final(self)),
            Self::step(*old(self), Visit::Branch(PluginType::Input, branch@), *final(self)),
    ;

    fn visit_filter_plugin(&mut self, plugin: &Plugin)
        requires
            Self::inv(*old(self)),
        ensures
            Self::inv(*final(self)),
            Self::step(*old(self), Visit::Plugin(PluginType::Filter, plugin@), *final(self)),
    ;

    fn visit_filter_branch(&mut self, branch: &Branch)
        requires
            Self::inv(*old(self)),
        ensures
            Self::inv(*final(self)),
            Self::step(*old(self), Visit::Branch(PluginType::Filter, branch@), *final(self)),
    ;

    fn visit_output_plugin(&mut self, plugin: &Plugin)
        requires
            Self::inv(*old(self)),
        ensures
            Self::inv(*final(self)),
            Self::step(*old(self), Visit::Plugin(PluginType::Output, plugin@), *final(self)),
    ;

    fn visit_output_branch(&mut self, branch: &Branch)
        requires
            Self::inv(*old(self)),
        ensures
            Self::inv(*final(self)),
            Self::step(*old(self), Visit::Branch(PluginType::Output, branch@), *final(self)),
    ;
}

/// `trace` leads from `start` to `end` by one step per visit of `vs`.
pub open spec fn is_trace<V: Visitor>(trace: Seq<V>, start: V, vs: Seq<Visit>, end: V) -> bool {
    &&& trace.len() == vs.len() + 1
    &&& trace[0] == start
    &&& trace[vs.len() as int] == end
    &&& forall|k: int| 0 <= k < vs.len() ==> #[trigger] V::step(trace[k], vs[k], trace[k + 1])
}

/// Some chain of hook steps over `vs` leads from `start` to `end`.
pub open spec fn walked<V: Visitor>(start: V, vs: Seq<Visit>, end: V) -> bool {
    exists|trace: Seq<V>| is_trace(trace, start, vs, end)
}

/// Chains of steps compose.
pub proof fn lemma_walked_concat<V: Visitor>(a: V, vs1: Seq<Visit>, b: V, vs2: Seq<Visit>, c: V)
    requires
        walked(a, vs1, b),
        walked(b, vs2, c),
    ensures
        walked(a, vs1 + vs2, c),
{
    let t1 = choose|t: Seq<V>| is_trace(t, a, vs1, b);
    let t2 = choose|t: Seq<V>| is_trace(t, b, vs2, c);
    let t = t1 + t2.drop_first();
    let vs = vs1 + vs2;
    assert forall|k: int| 0 <= k < vs.len() implies #[trigger] V::step(t[k], vs[k], t[k + 1]) by {
        if k < vs1.len() {
            assert(V::step(t1[k], vs1[k], t1[k + 1]));
        } else {
            let j = k - vs1.len();
            assert(V::step(t2[j], vs2[j], t2[j + 1]));
        }
    }
    assert(is_trace(t, a, vs, c));
}

/// The model of a block has one statement per statement of the block.
pub proof fn lemma_block_model_index(b: Seq<BranchOrPlugin>)
    ensures
        block_model(b).len() == b.len(),
        forall|k: int| 0 <= k < b.len() ==> #[trigger] block_model(b)[k] == item_model(b[k]),
    decreases b.len(),
{
    if b.len() > 0 {
        lemma_block_model_index(b.drop_last());
    }
}

/// Calls, for each statement of `block` in order, the hook for `kind` and
/// for the statement's kind.
fn walk_block<V: Visitor>(visitor: &mut V, kind: PluginType, block: &Block)
    requires
        V::inv(*old(visitor)),
    ensures
        V::inv(*final(visitor)),
        walked(*old(visitor), block_visits(kind, block_model(block@)), *final(visitor)),
{
    let ghost start = *visitor;
    let ghost vs = block_visits(kind, block_model(block@));
    let ghost mut trace: Seq<V> = seq![start];
    proof {
        lemma_block_model_index(block@);
    }
    let mut i: usize = 0;
    while i < block.len()
        invariant
            i <= block@.len(),
            vs == block_visits(kind, block_model(block@)),
            vs.len() == block@.len(),
            forall|k: int| 0 <= k < block@.len() ==> #[trigger] block_model(block@)[k] == item_model(block@[k]),
            is_trace(trace, start, vs.subrange(0, i as int), *visitor),
            V::inv(*visitor),
        decreases block@.len() - i,
    {
        let ghost before = *visitor;
        match &block[i] {
            BranchOrPlugin::Plugin(p) => match kind {
                PluginType::Input => visitor.visit_input_plugin(p),
                PluginType::Filter => visitor.visit_filter_plugin(p),
                PluginType::Output => visitor.visit_output_plugin(p),
            },
            BranchOrPlugin::Branch(b) => match kind {
                PluginType::Input => visitor.visit_input_branch(b),
                PluginType::Filter => visitor.visit_filter_branch(b),
                PluginType::Output => visitor.visit_output_branch(b),
            },
        }
        proof {
            assert(V::step(before, vs[i as int], *visitor));
            let t = trace.push(*visitor);
            let done = vs.subrange(0, i + 1);
            assert forall|k: int| 0 <= k < done.len() implies #[trigger] V::step(t[k], done[k], t[k + 1]) by {
                if k < i {
                    assert(V::step(trace[k], vs.subrange(0, i as int)[k], trace[k + 1]));
                }
            }
            trace = t;
        }
        i = i + 1;
    }
    assert(vs.subrange(0, i as int) =~= vs);
}

pub fn walk_input_block<V: Visitor>(visitor: &mut V, block: &Block)
    requires
        V::inv(*old(visitor)),
    ensures
        V::inv(*final(visitor)),
        walked(*old(visitor), block_visits(PluginType::Input, block_model(block@)), *final(visitor)),
{
    walk_block(visitor, PluginType::Input, block)
}

pub fn walk_filter_block<V: Visitor>(visitor: &mut V, block: &Block)
    requires
        V::inv(*old(visitor)),
    ensures
        V::inv(*final(visitor)),
        walked(*old(visitor), block_visits(PluginType::Filter, block_model(block@)), *final(visitor)),
{
    walk_block(visitor, PluginType::Filter, block)
}

pub fn walk_output_block<V: Visitor>(visitor: &mut V, block: &Block)
    requires
        V::inv(*old(visitor)),
    ensures
        V::inv(*final(visitor)),
        walked(*old(visitor), block_visits(PluginType::Output, block_model(block@)), *final(visitor)),
{
    walk_block(visitor, PluginType::Output, block)
}

/// Walks a section's block with the hooks of the section's kind.
pub fn walk_plugin_section<V: Visitor>(visitor: &mut V, section: &PluginSection)
    requires
        V::inv(*old(visitor)),
    ensures
        V::inv(*final(visitor)),
        walked(*old(visitor), block_visits(section@.kind, section@.block), *final(visitor)),
{
    match section.plugin_type {
        PluginType::Input => walk_input_block(visitor, &section.block),
        PluginType::Filter => walk_filter_block(visitor, &section.block),
        PluginType::Output => walk_output_block(visitor, &section.block),
    }
}

/// Walks every section in order.
pub fn walk_config<V: Visitor>(visitor: &mut V, config: &Config)
    requires
        V::inv(*old(visitor)),
    ensures
        V::inv(*final(visitor)),
        walked(*old(visitor), config_visits(config@), *final(visitor)),
{
    let ghost start = *visitor;
    let ghost cs = config@;
    proof {
        assert(is_trace(seq![start], start, seq![], start));
        assert(config_visits(cs.subrange(0, 0)) =~= seq![]);
    }
    let mut i: usize = 0;
    while i < config.sections.len()
        invariant
            i <= config.sections@.len(),
            cs == config@,
            cs.len() == config.sections@.len(),
            walked(start, config_visits(cs.subrange(0, i as int)), *visitor),
            V::inv(*visitor),
        decreases config.sections@.len() - i,
    {
        let ghost before = *visitor;
        walk_plugin_section(visitor, &config.sections[i]);
        proof {
            let sec = cs[i as int];
            assert(sec == config.sections@[i as int]@);
            lemma_walked_concat(
                start,
                config_visits(cs.subrange(0, i as int)),
                before,
                block_visits(sec.kind, sec.block),
                *visitor,
            );
            let next = cs.subrange(0, i + 1);
            assert(next.drop_last() =~= cs.subrange(0, i as int));
        }
        i = i + 1;
    }
    assert(cs.subrange(0, i as int) =~= cs);
}

} // verus!
