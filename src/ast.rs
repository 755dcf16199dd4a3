//! The syntax tree of a pipeline configuration, and its mathematical model.
//!
//! Every executable node has a view (`@`) in the `Spec*` types below, where
//! text is a `Seq<char>` and child lists are `Seq`s; the grammar and the
//! compiler state their contracts over those views.
use vstd::prelude::*;

verus! {

broadcast use vstd::std_specs::vec::group_vec_axioms, vstd::seq::group_seq_axioms;

/// A whole configuration: its sections in source order.
#[derive(Debug, PartialEq)]
pub struct Config {
    pub sections: Vec<PluginSection>,
}

/// One `input { ... }`, `filter { ... }` or `output { ... }` section.
#[derive(Debug, PartialEq)]
pub struct PluginSection {
    pub plugin_type: PluginType,
    pub block: Block,
}

#[derive(Clone, Copy, Debug, PartialEq, Eq, Structural)]
pub enum PluginType {
    Input,
    Filter,
    Output,
}

/// The statements inside `{ ... }`, in declaration order.
pub type Block = Vec<BranchOrPlugin>;

#[derive(Debug, PartialEq)]
pub enum BranchOrPlugin {
    Branch(Branch),
    Plugin(Plugin),
}

/// A leaf statement naming a plugin to instantiate.
#[derive(Debug, PartialEq)]
pub struct Plugin {
    pub name: String,
}

/// An `if {...} else if {...} else {...}` chain.
///
/// `cases[0]` is the `if` case; an `else` tail is stored last, as a case
/// whose condition is `Condition::truth()`.
#[derive(Debug, PartialEq)]
pub struct Branch {
    pub cases: Vec<Case>,
}

/// A condition together with the block it guards.
#[derive(Debug, PartialEq)]
pub struct Case {
    pub condition: Condition,
    pub block: Block,
}

/// A boolean expression tree combined by `and` / `or`.
#[derive(Debug, PartialEq)]
pub enum Condition {
    Leaf(Box<BoolExpr>),
    Branch(BoolOperator, Box<Condition>, Box<Condition>),
}

/// An operand of a condition.
#[derive(Debug, PartialEq)]
pub enum BoolExpr {
    Parens(Box<Condition>),
    Negative(Box<BoolExpr>),
    Compare(CompareOperator, Rvalue, Rvalue),
    Rvalue(Rvalue),
}

/// A field path such as `[a][b]`.
#[derive(Debug, PartialEq)]
pub struct Selector {
    pub elements: Vec<String>,
}

/// A numeric literal, kept as written (`-0.42`, `7`, `1.`).
#[derive(Debug, PartialEq)]
pub struct Number {
    pub text: String,
}

#[derive(Debug, PartialEq)]
pub enum Rvalue {
    Number(Number),
    String(String),
    Selector(Selector),
}

#[derive(Clone, Copy, Debug, PartialEq, Eq, Structural)]
pub enum BoolOperator {
    And,
    Or,
}

#[derive(Clone, Copy, Debug, PartialEq, Eq, Structural)]
pub enum CompareOperator {
    Eq,
    Ne,
    Lt,
    Gt,
    Le,
    Ge,
}

// ---------------------------------------------------------------------------
// Mathematical model
// ---------------------------------------------------------------------------

pub enum SpecRvalue {
    Number(Seq<char>),
    Str(Seq<char>),
    Selector(Seq<Seq<char>>),
}

pub enum SpecBoolExpr {
    Parens(Box<SpecCondition>),
    Negative(Box<SpecBoolExpr>),
    Compare(CompareOperator, SpecRvalue, SpecRvalue),
    Value(SpecRvalue),
}

pub enum SpecCondition {
    Leaf(Box<SpecBoolExpr>),
    Node(BoolOperator, Box<SpecCondition>, Box<SpecCondition>),
}

pub struct SpecCase {
    pub condition: SpecCondition,
    pub block: Seq<SpecItem>,
}

pub enum SpecItem {
    Branch(Seq<SpecCase>),
    Plugin(Seq<char>),
}

pub struct SpecSection {
    pub kind: PluginType,
    pub block: Seq<SpecItem>,
}

pub open spec fn precedence_of(op: BoolOperator) -> int {
    match op {
        BoolOperator::Or => 100,
        BoolOperator::And => 200,
    }
}

pub open spec fn compare_symbol(op: CompareOperator) -> Seq<char> {
    match op {
        CompareOperator::Eq => seq!['=', '='],
        CompareOperator::Ne => seq!['!', '='],
        CompareOperator::Lt => seq!['<'],
        CompareOperator::Gt => seq!['>'],
        CompareOperator::Le => seq!['<', '='],
        CompareOperator::Ge => seq!['>', '='],
    }
}

/// The condition that always holds: the bare number `1`.
pub open spec fn spec_truth() -> SpecCondition {
    SpecCondition::Leaf(Box::new(SpecBoolExpr::Value(SpecRvalue::Number(seq!['1']))))
}

pub open spec fn strings_model(v: Seq<String>) -> Seq<Seq<char>> {
    v.map_values(|s: String| s@)
}

pub open spec fn rvalue_model(v: Rvalue) -> SpecRvalue {
    match v {
        Rvalue::Number(n) => SpecRvalue::Number(n.text@),
        Rvalue::String(s) => SpecRvalue::Str(s@),
        Rvalue::Selector(sel) => SpecRvalue::Selector(strings_model(sel.elements@)),
    }
}

pub open spec fn expr_model(e: BoolExpr) -> SpecBoolExpr
    decreases e,
{
    match e {
        BoolExpr::Parens(c) => SpecBoolExpr::Parens(Box::new(cond_model(*c))),
        BoolExpr::Negative(x) => SpecBoolExpr::Negative(Box::new(expr_model(*x))),
        BoolExpr::Compare(op, l, r) => SpecBoolExpr::Compare(op, rvalue_model(l), rvalue_model(r)),
        BoolExpr::Rvalue(v) => SpecBoolExpr::Value(rvalue_model(v)),
    }
}

pub open spec fn cond_model(c: Condition) -> SpecCondition
    decreases c,
{
    match c {
        Condition::Leaf(e) => SpecCondition::Leaf(Box::new(expr_model(*e))),
        Condition::Branch(op, l, r) => SpecCondition::Node(
            op,
            Box::new(cond_model(*l)),
            Box::new(cond_model(*r)),
        ),
    }
}

pub open spec fn item_model(it: BranchOrPlugin) -> SpecItem
    decreases it,
{
    match it {
        BranchOrPlugin::Branch(b) => SpecItem::Branch(cases_model(b.cases@)),
        BranchOrPlugin::Plugin(p) => SpecItem::Plugin(p.name@),
    }
}

pub open spec fn cases_model(cs: Seq<Case>) -> Seq<SpecCase>
    decreases cs,
{
    if cs.len() == 0 {
        seq![]
    } else {
        cases_model(cs.drop_last()).push(case_model(cs.last()))
    }
}

pub open spec fn case_model(c: Case) -> SpecCase
    decreases c,
{
    SpecCase { condition: cond_model(c.condition), block: block_model(c.block@) }
}

pub open spec fn block_model(b: Seq<BranchOrPlugin>) -> Seq<SpecItem>
    decreases b,
{
    if b.len() == 0 {
        seq![]
    } else {
        block_model(b.drop_last()).push(item_model(b.last()))
    }
}

impl View for PluginType {
    type V = PluginType;

    open spec fn view(&self) -> PluginType {
        *self
    }
}

impl View for BoolOperator {
    type V = BoolOperator;

    open spec fn view(&self) -> BoolOperator {
        *self
    }
}

impl View for CompareOperator {
    type V = CompareOperator;

    open spec fn view(&self) -> CompareOperator {
        *self
    }
}

impl View for Plugin {
    type V = Seq<char>;

    open spec fn view(&self) -> Seq<char> {
        self.name@
    }
}

impl View for Number {
    type V = Seq<char>;

    open spec fn view(&self) -> Seq<char> {
        self.text@
    }
}

impl View for Selector {
    type V = Seq<Seq<char>>;

    open spec fn view(&self) -> Seq<Seq<char>> {
        strings_model(self.elements@)
    }
}

impl View for Rvalue {
    type V = SpecRvalue;

    open spec fn view(&self) -> SpecRvalue {
        rvalue_model(*self)
    }
}

impl View for BoolExpr {
    type V = SpecBoolExpr;

    open spec fn view(&self) -> SpecBoolExpr {
        expr_model(*self)
    }
}

impl View for Condition {
    type V = SpecCondition;

    open spec fn view(&self) -> SpecCondition {
        cond_model(*self)
    }
}

impl View for Case {
    type V = SpecCase;

    open spec fn view(&self) -> SpecCase {
        case_model(*self)
    }
}

impl View for BranchOrPlugin {
    type V = SpecItem;

    open spec fn view(&self) -> SpecItem {
        item_model(*self)
    }
}

impl View for Branch {
    type V = Seq<SpecCase>;

    open spec fn view(&self) -> Seq<SpecCase> {
        cases_model(self.cases@)
    }
}

impl View for PluginSection {
    type V = SpecSection;

    open spec fn view(&self) -> SpecSection {
        SpecSection { kind: self.plugin_type, block: block_model(self.block@) }
    }
}

impl View for Config {
    type V = Seq<SpecSection>;

    open spec fn view(&self) -> Seq<SpecSection> {
        self.sections@.map_values(|s: PluginSection| s@)
    }
}


/// Appending a statement to a block appends its model.
pub proof fn lemma_block_model_push(b: Seq<BranchOrPlugin>, it: BranchOrPlugin)
    ensures
        block_model(b.push(it)) == block_model(b).push(item_model(it)),
{
    assert(b.push(it).drop_last() =~= b);
}

/// Appending a case to a list of cases appends its model.
pub proof fn lemma_cases_model_push(cs: Seq<Case>, c: Case)
    ensures
        cases_model(cs.push(c)) == cases_model(cs).push(case_model(c)),
{
    assert(cs.push(c).drop_last() =~= cs);
}

/// The model of a concatenation of cases is the concatenation of the models.
pub proof fn lemma_cases_model_concat(a: Seq<Case>, b: Seq<Case>)
    ensures
        cases_model(a + b) == cases_model(a) + cases_model(b),
    decreases b.len(),
{
    if b.len() == 0 {
        assert(a + b =~= a);
        assert(cases_model(a) + cases_model(b) =~= cases_model(a));
    } else {
        lemma_cases_model_concat(a, b.drop_last());
        assert((a + b).drop_last() =~= a + b.drop_last());
        assert((a + b).last() == b.last());
        assert(cases_model(a) + cases_model(b) =~= (cases_model(a) + cases_model(b.drop_last())).push(
            case_model(b.last()),
        ));
    }
}

impl Branch {
    /// Assembles a branch from its `if` case, its `else if` cases and its
    /// optional `else` case, in that order.
    pub fn new(case_if: Case, else_ifs: Vec<Case>, case_else: Option<Case>) -> (r: Branch)
        ensures
            r@ == seq![case_if@] + cases_model(else_ifs@) + match case_else {
                Some(c) => seq![c@],
                None => Seq::<SpecCase>::empty(),
            },
    {
        let mut else_ifs = else_ifs;
        let ghost first = case_if;
        let ghost tail = else_ifs@;
        let mut cases: Vec<Case> = Vec::new();
        cases.push(case_if);
        cases.append(&mut else_ifs);
        proof {
            lemma_cases_model_push(seq![], first);
            assert(seq![first] =~= Seq::<Case>::empty().push(first));
            lemma_cases_model_concat(seq![first], tail);
        }
        if let Some(c) = case_else {
            proof {
                lemma_cases_model_push(cases@, c);
            }
            cases.push(c);
        }
        Branch { cases }
    }
}

impl Condition {
    /// The condition that is always satisfied; an `else` case carries it.
    pub fn truth() -> (r: Condition)
        ensures
            r@ == spec_truth(),
    {
        let text = String::from_str("1");
        proof {
            reveal_strlit("1");
            assert(text@ =~= seq!['1']);
        }
        let e = BoolExpr::Rvalue(Rvalue::Number(Number { text }));
        assert(e@ == SpecBoolExpr::Value(SpecRvalue::Number(seq!['1'])));
        let r = Condition::Leaf(Box::new(e));
        assert(r@ == SpecCondition::Leaf(Box::new(e@)));
        r
    }
}

impl BoolExpr {
    /// Logical negation of this expression.
    pub fn not(self) -> (r: BoolExpr)
        ensures
            r@ == SpecBoolExpr::Negative(Box::new(self@)),
    {
        BoolExpr::Negative(Box::new(self))
    }
}

impl BoolOperator {
    /// Binding strength: a higher number binds tighter.
    pub fn precedence(&self) -> (r: i32)
        ensures
            r == precedence_of(*self),
    {
        match *self {
            BoolOperator::Or => 100,
            BoolOperator::And => 200,
        }
    }
}

impl CompareOperator {
    /// The operator as written in a configuration.
    pub fn to_string(&self) -> (r: &'static str)
        ensures
            r@ == compare_symbol(*self),
    {
        proof {
            reveal_strlit("==");
            reveal_strlit("!=");
            reveal_strlit("<");
            reveal_strlit(">");
            reveal_strlit("<=");
            reveal_strlit(">=");
        }
        match *self {
            CompareOperator::Eq => "==",
            CompareOperator::Ne => "!=",
            CompareOperator::Lt => "<",
            CompareOperator::Gt => ">",
            CompareOperator::Le => "<=",
            CompareOperator::Ge => ">=",
        }
    }
}

impl From<BoolExpr> for Condition {
    fn from(v: BoolExpr) -> (r: Condition) {
        Condition::Leaf(Box::new(v))
    }
}

impl vstd::std_specs::convert::FromSpecImpl<BoolExpr> for Condition {
    open spec fn obeys_from_spec() -> bool {
        true
    }

    open spec fn from_spec(v: BoolExpr) -> Condition {
        Condition::Leaf(Box::new(v))
    }
}

impl From<Rvalue> for BoolExpr {
    fn from(v: Rvalue) -> (r: BoolExpr) {
        BoolExpr::Rvalue(v)
    }
}

impl vstd::std_specs::convert::FromSpecImpl<Rvalue> for BoolExpr {
    open spec fn obeys_from_spec() -> bool {
        true
    }

    open spec fn from_spec(v: Rvalue) -> BoolExpr {
        BoolExpr::Rvalue(v)
    }
}

impl From<String> for Rvalue {
    fn from(v: String) -> (r: Rvalue) {
        Rvalue::String(v)
    }
}

impl vstd::std_specs::convert::FromSpecImpl<String> for Rvalue {
    open spec fn obeys_from_spec() -> bool {
        true
    }

    open spec fn from_spec(v: String) -> Rvalue {
        Rvalue::String(v)
    }
}

impl From<Selector> for Rvalue {
    fn from(v: Selector) -> (r: Rvalue) {
        Rvalue::Selector(v)
    }
}

impl vstd::std_specs::convert::FromSpecImpl<Selector> for Rvalue {
    open spec fn obeys_from_spec() -> bool {
        true
    }

    open spec fn from_spec(v: Selector) -> Rvalue {
        Rvalue::Selector(v)
    }
}

impl From<Number> for Rvalue {
    fn from(v: Number) -> (r: Rvalue) {
        Rvalue::Number(v)
    }
}

impl vstd::std_specs::convert::FromSpecImpl<Number> for Rvalue {
    open spec fn obeys_from_spec() -> bool {
        true
    }

    open spec fn from_spec(v: Number) -> Rvalue {
        Rvalue::Number(v)
    }
}

} // verus!
