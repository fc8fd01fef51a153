//! The syntax tree: top-level items, expressions, memory locations and types.
//!
//! Every executable type has a ghost counterpart (its view) in which strings
//! are sequences of characters and vectors are sequences. Contracts are
//! stated over the views.

use vstd::prelude::*;

verus! {

/// An offset into the source text, counted in characters.
#[derive(Clone, Copy, Debug, PartialEq, Eq, Structural)]
pub struct Position(pub usize);

/// A half-open range of source offsets, counted in characters.
#[derive(Clone, Copy, Debug, PartialEq, Eq, Structural)]
pub struct Span {
    pub start: usize,
    pub end: usize,
}

impl Span {
    /// The span from `start` up to, not including, `end`.
    pub fn new(start: usize, end: usize) -> (s: Span)
        ensures
            s == (Span { start, end }),
    {
        Span { start, end }
    }

    /// The offset at which the span begins.
    pub fn position(&self) -> (p: Position)
        ensures
            p == Position(self.start),
    {
        Position(self.start)
    }
}

/// How an item is visible outside the module.
#[derive(Clone, Copy, Debug, PartialEq, Eq, Structural)]
pub enum Visibility {
    Local,
    Export,
    Import,
}

/// The four value types of the target machine.
#[derive(Clone, Copy, Debug, PartialEq, Eq, PartialOrd, Ord, Hash, Structural)]
pub enum Type {
    I32,
    I64,
    F32,
    F64,
}

impl Type {
    /// Position of the type in the fixed order i32 < i64 < f32 < f64.
    pub open spec fn rank(self) -> nat {
        match self {
            Type::I32 => 0,
            Type::I64 => 1,
            Type::F32 => 2,
            Type::F64 => 3,
        }
    }

    /// Whether the type is one of the two integer types.
    pub open spec fn is_integer(self) -> bool {
        self == Type::I32 || self == Type::I64
    }

    /// Whether the type is one of the two integer types.
    pub fn is_int(self) -> (r: bool)
        ensures
            r == self.is_integer(),
    {
        match self {
            Type::I32 => true,
            Type::I64 => true,
            Type::F32 => false,
            Type::F64 => false,
        }
    }
}

/// Whether two optional types are the same; `None` stands for void.
pub fn same_type(a: Option<Type>, b: Option<Type>) -> (r: bool)
    ensures
        r == (a == b),
{
    match (a, b) {
        (None, None) => true,
        (Some(x), Some(y)) => x == y,
        _ => false,
    }
}

/// Width of a memory access.
#[derive(Clone, Copy, Debug, PartialEq, Eq, Structural)]
pub enum MemSize {
    Byte,
    Word,
}

/// The operations on one operand.
#[derive(Clone, Copy, Debug, PartialEq, Eq, Structural)]
pub enum UnaryOp {
    Negate,
    Not,
}

/// The operations on two operands. Those that end in `U` take their
/// operands as unsigned integers.
#[derive(Clone, Copy, Debug, PartialEq, Eq, Structural)]
pub enum BinOp {
    Add,
    Sub,
    Mul,
    Div,
    Rem,
    And,
    Or,
    Xor,
    Eq,
    Ne,
    Gt,
    Ge,
    Lt,
    Le,
    Shl,
    ShrU,
    ShrS,
    DivU,
    RemU,
    LtU,
    LeU,
    GtU,
    GeU,
}

/// Storage mode of a `let`: a stored local gets a slot, an inline one only
/// names a value.
#[derive(Clone, Copy, Debug, PartialEq, Eq, Structural)]
pub enum LetType {
    Normal,
    Inline,
}

/// Element type of a data segment's array.
#[derive(Clone, Copy, Debug, PartialEq, Eq, Structural)]
pub enum DataType {
    I8,
    I16,
    I32,
    I64,
    F32,
    F64,
}

/// A node of the tree: a syntactic form with its span and, once it is
/// checked, its type. `None` stands for no value.
#[derive(Debug, PartialEq)]
pub struct Expression {
    pub type_: Option<Type>,
    pub expr: Expr,
    pub span: Span,
}

/// Statements, and the expression at the end that gives the block its
/// value, if there is one.
#[derive(Debug, PartialEq)]
pub struct Block {
    pub statements: Vec<Expression>,
    pub final_expression: Option<Box<Expression>>,
}

/// A place in linear memory: an address and a constant offset.
#[derive(Debug, PartialEq)]
pub struct MemoryLocation {
    pub span: Span,
    pub size: MemSize,
    pub left: Box<Expression>,
    pub right: Box<Expression>,
}

/// The syntactic forms. Float constants keep the text of their literal.
#[derive(Debug, PartialEq)]
#[allow(inconsistent_fields)]
pub enum Expr {
    I32Const(i32),
    I64Const(i64),
    F32Const(String),
    F64Const(String),
    Variable { name: String, local_id: Option<usize> },
    Let {
        name: String,
        type_: Option<Type>,
        value: Option<Box<Expression>>,
        let_type: LetType,
        local_id: Option<usize>,
    },
    Assign { name: String, value: Box<Expression>, local_id: Option<usize> },
    LocalTee { name: String, value: Box<Expression>, local_id: Option<usize> },
    Peek(MemoryLocation),
    Poke { mem_location: MemoryLocation, value: Box<Expression> },
    UnaryOp { op: UnaryOp, value: Box<Expression> },
    BinOp { op: BinOp, left: Box<Expression>, right: Box<Expression> },
    Block(Block),
    Loop { label: String, block: Box<Expression> },
    LabelBlock { label: String, block: Box<Expression> },
    Branch(String),
    BranchIf { condition: Box<Expression>, label: String },
    Cast { value: Box<Expression>, type_: Type },
    FuncCall { name: String, params: Vec<Expression> },
    Select { condition: Box<Expression>, if_true: Box<Expression>, if_false: Box<Expression> },
    If { condition: Box<Expression>, if_true: Box<Expression>, if_false: Option<Box<Expression>> },
    Return { value: Option<Box<Expression>> },
    First { value: Box<Expression>, drop: Box<Expression> },
    Error,
}

/// What an expression stands for in contracts.
pub ghost struct ExpressionView {
    pub type_: Option<Type>,
    pub expr: ExprView,
    pub span: Span,
}

/// What a block stands for in contracts.
pub ghost struct BlockView {
    pub statements: Seq<ExpressionView>,
    pub final_expression: Option<Box<ExpressionView>>,
}

/// What a memory location stands for in contracts.
pub ghost struct MemoryLocationView {
    pub span: Span,
    pub size: MemSize,
    pub left: Box<ExpressionView>,
    pub right: Box<ExpressionView>,
}

/// What a syntactic form stands for in contracts.
#[allow(inconsistent_fields)]
pub ghost enum ExprView {
    I32Const(i32),
    I64Const(i64),
    F32Const(Seq<char>),
    F64Const(Seq<char>),
    Variable { name: Seq<char>, local_id: Option<usize> },
    Let {
        name: Seq<char>,
        type_: Option<Type>,
        value: Option<Box<ExpressionView>>,
        let_type: LetType,
        local_id: Option<usize>,
    },
    Assign { name: Seq<char>, value: Box<ExpressionView>, local_id: Option<usize> },
    LocalTee { name: Seq<char>, value: Box<ExpressionView>, local_id: Option<usize> },
    Peek(MemoryLocationView),
    Poke { mem_location: MemoryLocationView, value: Box<ExpressionView> },
    UnaryOp { op: UnaryOp, value: Box<ExpressionView> },
    BinOp { op: BinOp, left: Box<ExpressionView>, right: Box<ExpressionView> },
    Block(BlockView),
    Loop { label: Seq<char>, block: Box<ExpressionView> },
    LabelBlock { label: Seq<char>, block: Box<ExpressionView> },
    Branch(Seq<char>),
    BranchIf { condition: Box<ExpressionView>, label: Seq<char> },
    Cast { value: Box<ExpressionView>, type_: Type },
    FuncCall { name: Seq<char>, params: Seq<ExpressionView> },
    Select {
        condition: Box<ExpressionView>,
        if_true: Box<ExpressionView>,
        if_false: Box<ExpressionView>,
    },
    If {
        condition: Box<ExpressionView>,
        if_true: Box<ExpressionView>,
        if_false: Option<Box<ExpressionView>>,
    },
    Return { value: Option<Box<ExpressionView>> },
    First { value: Box<ExpressionView>, drop: Box<ExpressionView> },
    Error,
}

impl Expression {
    pub open spec fn view(&self) -> ExpressionView
        decreases self,
    {
        ExpressionView {
            type_: self.type_,
            span: self.span,
            expr: match self.expr {
                Expr::I32Const(v) => ExprView::I32Const(v),
                Expr::I64Const(v) => ExprView::I64Const(v),
                Expr::F32Const(s) => ExprView::F32Const(s@),
                Expr::F64Const(s) => ExprView::F64Const(s@),
                Expr::Variable { name, local_id } => ExprView::Variable { name: name@, local_id },
                Expr::Let { name, type_, value, let_type, local_id } => ExprView::Let {
                    name: name@,
                    type_,
                    value: match value {
                        Some(v) => Some(Box::new(v.view())),
                        None => None,
                    },
                    let_type,
                    local_id,
                },
                Expr::Assign { name, value, local_id } => ExprView::Assign {
                    name: name@,
                    value: Box::new(value.view()),
                    local_id,
                },
                Expr::LocalTee { name, value, local_id } => ExprView::LocalTee {
                    name: name@,
                    value: Box::new(value.view()),
                    local_id,
                },
                Expr::Peek(m) => ExprView::Peek(
                    MemoryLocationView {
                        span: m.span,
                        size: m.size,
                        left: Box::new(m.left.view()),
                        right: Box::new(m.right.view()),
                    },
                ),
                Expr::Poke { mem_location, value } => ExprView::Poke {
                    mem_location: MemoryLocationView {
                        span: mem_location.span,
                        size: mem_location.size,
                        left: Box::new(mem_location.left.view()),
                        right: Box::new(mem_location.right.view()),
                    },
                    value: Box::new(value.view()),
                },
                Expr::UnaryOp { op, value } => ExprView::UnaryOp {
                    op,
                    value: Box::new(value.view()),
                },
                Expr::BinOp { op, left, right } => ExprView::BinOp {
                    op,
                    left: Box::new(left.view()),
                    right: Box::new(right.view()),
                },
                Expr::Block(b) => ExprView::Block(
                    BlockView {
                        statements: Seq::new(
                            b.statements@.len(),
                            |i: int|
                                if 0 <= i < b.statements@.len() {
                                    b.statements@[i].view()
                                } else {
                                    arbitrary()
                                },
                        ),
                        final_expression: match b.final_expression {
                            Some(v) => Some(Box::new(v.view())),
                            None => None,
                        },
                    },
                ),
                Expr::Loop { label, block } => ExprView::Loop {
                    label: label@,
                    block: Box::new(block.view()),
                },
                Expr::LabelBlock { label, block } => ExprView::LabelBlock {
                    label: label@,
                    block: Box::new(block.view()),
                },
                Expr::Branch(label) => ExprView::Branch(label@),
                Expr::BranchIf { condition, label } => ExprView::BranchIf {
                    condition: Box::new(condition.view()),
                    label: label@,
                },
                Expr::Cast { value, type_ } => ExprView::Cast {
                    value: Box::new(value.view()),
                    type_,
                },
                Expr::FuncCall { name, params } => ExprView::FuncCall {
                    name: name@,
                    params: Seq::new(
                        params@.len(),
                        |i: int|
                            if 0 <= i < params@.len() {
                                params@[i].view()
                            } else {
                                arbitrary()
                            },
                    ),
                },
                Expr::Select { condition, if_true, if_false } => ExprView::Select {
                    condition: Box::new(condition.view()),
                    if_true: Box::new(if_true.view()),
                    if_false: Box::new(if_false.view()),
                },
                Expr::If { condition, if_true, if_false } => ExprView::If {
                    condition: Box::new(condition.view()),
                    if_true: Box::new(if_true.view()),
                    if_false: match if_false {
                        Some(v) => Some(Box::new(v.view())),
                        None => None,
                    },
                },
                Expr::Return { value } => ExprView::Return {
                    value: match value {
                        Some(v) => Some(Box::new(v.view())),
                        None => None,
                    },
                },
                Expr::First { value, drop } => ExprView::First {
                    value: Box::new(value.view()),
                    drop: Box::new(drop.view()),
                },
                Expr::Error => ExprView::Error,
            },
        }
    }
}

impl ExpressionView {
    /// No node of the tree is the placeholder that the parser leaves where
    /// it could not read an expression.
    pub open spec fn error_free(self) -> bool
        decreases self,
    {
        match self.expr {
            ExprView::I32Const(_) => true,
            ExprView::I64Const(_) => true,
            ExprView::F32Const(_) => true,
            ExprView::F64Const(_) => true,
            ExprView::Variable { .. } => true,
            ExprView::Let { value, .. } => match value {
                Some(v) => v.error_free(),
                None => true,
            },
            ExprView::Assign { value, .. } => value.error_free(),
            ExprView::LocalTee { value, .. } => value.error_free(),
            ExprView::Peek(m) => m.left.error_free() && m.right.error_free(),
            ExprView::Poke { mem_location, value } => mem_location.left.error_free()
                && mem_location.right.error_free() && value.error_free(),
            ExprView::UnaryOp { value, .. } => value.error_free(),
            ExprView::BinOp { left, right, .. } => left.error_free() && right.error_free(),
            ExprView::Block(b) => {
                &&& forall|i: int|
                    0 <= i < b.statements.len() ==> (#[trigger] b.statements[i]).error_free()
                &&& match b.final_expression {
                    Some(f) => f.error_free(),
                    None => true,
                }
            },
            ExprView::Loop { block, .. } => block.error_free(),
            ExprView::LabelBlock { block, .. } => block.error_free(),
            ExprView::Branch(_) => true,
            ExprView::BranchIf { condition, .. } => condition.error_free(),
            ExprView::Cast { value, .. } => value.error_free(),
            ExprView::FuncCall { params, .. } => forall|i: int|
                0 <= i < params.len() ==> (#[trigger] params[i]).error_free(),
            ExprView::Select { condition, if_true, if_false } => condition.error_free()
                && if_true.error_free() && if_false.error_free(),
            ExprView::If { condition, if_true, if_false } => condition.error_free()
                && if_true.error_free() && match if_false {
                Some(f) => f.error_free(),
                None => true,
            },
            ExprView::Return { value } => match value {
                Some(v) => v.error_free(),
                None => true,
            },
            ExprView::First { value, drop } => value.error_free() && drop.error_free(),
            ExprView::Error => false,
        }
    }
}

/// The views of a sequence of expressions, element by element.
pub open spec fn expression_views(s: Seq<Expression>) -> Seq<ExpressionView> {
    Seq::new(s.len(), |i: int| s[i]@)
}

/// The view of an expression that holds a block or a call, written with
/// the views of its parts.
pub proof fn lemma_view_parts(e: Expression)
    ensures
        e.expr matches Expr::Block(b) ==> e@.expr == ExprView::Block(b@),
        e.expr matches Expr::FuncCall { name, params } ==> e@.expr == (ExprView::FuncCall {
            name: name@,
            params: expression_views(params@),
        }),
        e.expr matches Expr::Peek(m) ==> e@.expr == ExprView::Peek(m@),
        e.expr matches Expr::Poke { mem_location, value } ==> e@.expr == (ExprView::Poke {
            mem_location: mem_location@,
            value: Box::new(value@),
        }),
{
    match e.expr {
        Expr::Block(b) => {
            assert(e@.expr->Block_0.statements =~= b@.statements);
        },
        Expr::FuncCall { name, params } => {
            assert(e@.expr->FuncCall_params =~= expression_views(params@));
        },
        _ => {},
    }
}

impl Expr {
    /// Wraps a syntactic form into a node that has a span and no type yet.
    pub fn with_span(self, span: Span) -> (e: Expression)
        ensures
            e.type_ is None,
            e.expr == self,
            e.span == span,
    {
        Expression { type_: None, expr: self, span }
    }
}

impl Block {
    pub open spec fn view(&self) -> BlockView {
        BlockView {
            statements: expression_views(self.statements@),
            final_expression: match self.final_expression {
                Some(v) => Some(Box::new(v@)),
                None => None,
            },
        }
    }

    /// The type of the block's trailing expression; `None` (void) without one.
    pub fn type_(&self) -> (t: Option<Type>)
        ensures
            t == self@.type_(),
    {
        match &self.final_expression {
            Some(e) => e.type_,
            None => None,
        }
    }
}

impl BlockView {
    pub open spec fn error_free(self) -> bool {
        &&& forall|i: int|
            0 <= i < self.statements.len() ==> (#[trigger] self.statements[i]).error_free()
        &&& match self.final_expression {
            Some(f) => f.error_free(),
            None => true,
        }
    }

    pub open spec fn type_(self) -> Option<Type> {
        match self.final_expression {
            Some(e) => e.type_,
            None => None,
        }
    }
}

impl MemoryLocation {
    pub open spec fn view(&self) -> MemoryLocationView {
        MemoryLocationView {
            span: self.span,
            size: self.size,
            left: Box::new(self.left@),
            right: Box::new(self.right@),
        }
    }
}

/// Parameter types and optional result type of a callable.
#[derive(Clone, Debug, PartialEq)]
pub struct Signature {
    pub params: Vec<Type>,
    pub result: Option<Type>,
}

/// What a signature stands for in contracts.
pub ghost struct SignatureView {
    pub params: Seq<Type>,
    pub result: Option<Type>,
}

impl View for Signature {
    type V = SignatureView;

    open spec fn view(&self) -> SignatureView {
        SignatureView { params: self.params@, result: self.result }
    }
}

/// The views of a sequence of signatures, element by element.
pub open spec fn signature_views(s: Seq<Signature>) -> Seq<SignatureView> {
    Seq::new(s.len(), |i: int| s[i]@)
}

/// An expression that holds a block or a call holds no error placeholder
/// exactly if its parts hold none.
pub proof fn lemma_error_free_parts(e: Expression)
    ensures
        e.expr matches Expr::Block(b) ==> (e@.error_free() <==> (forall|i: int|
            0 <= i < b.statements@.len() ==> (#[trigger] b.statements@[i])@.error_free())
            && match b.final_expression {
            Some(f) => f@.error_free(),
            None => true,
        }),
        e.expr matches Expr::FuncCall { params, .. } ==> (e@.error_free() <==> forall|i: int|
            0 <= i < params@.len() ==> (#[trigger] params@[i])@.error_free()),
{
    lemma_view_parts(e);
    match e.expr {
        Expr::Block(b) => {
            let views = b@.statements;
            if e@.error_free() {
                assert forall|i: int| 0 <= i < b.statements@.len() implies (
                #[trigger] b.statements@[i])@.error_free() by {
                    assert(views[i].error_free());
                }
            }
            if forall|i: int|
                0 <= i < b.statements@.len() ==> (#[trigger] b.statements@[i])@.error_free() {
                assert forall|i: int| 0 <= i < views.len() implies (
                #[trigger] views[i]).error_free() by {
                    assert(b.statements@[i]@.error_free());
                }
            }
        },
        Expr::FuncCall { name, params } => {
            let views = expression_views(params@);
            assert(e@.expr == ExprView::FuncCall { name: name@, params: views });
            let whole = e@;
            if whole.error_free() {
                assert forall|i: int| 0 <= i < params@.len() implies (
                #[trigger] params@[i])@.error_free() by {
                    assert(whole.expr->FuncCall_params[i].error_free());
                }
            }
            if forall|i: int| 0 <= i < params@.len() ==> (#[trigger] params@[i])@.error_free() {
                assert forall|i: int| 0 <= i < whole.expr->FuncCall_params.len() implies (
                #[trigger] whole.expr->FuncCall_params[i]).error_free() by {
                    assert(params@[i]@.error_free());
                }
                assert(whole.error_free());
            }
        },
        _ => {},
    }
}

/// Whether none of the expressions holds an error placeholder.
pub fn all_error_free(items: &Vec<Expression>) -> (r: bool)
    ensures
        r == forall|i: int| 0 <= i < items@.len() ==> (#[trigger] items@[i])@.error_free(),
    decreases items, 0nat,
{
    let mut i: usize = 0;
    while i < items.len()
        invariant
            i <= items@.len(),
            forall|j: int| 0 <= j < i ==> (#[trigger] items@[j])@.error_free(),
        decreases items.len() - i,
    {
        proof {
            vstd::std_specs::vec::axiom_vec_index_decreases(*items, i as int);
        }
        if !items[i].is_error_free() {
            return false;
        }
        i += 1;
    }
    true
}

impl Expression {
    /// Whether the expression holds no error placeholder.
    pub fn is_error_free(&self) -> (r: bool)
        ensures
            r == self@.error_free(),
        decreases self, 1nat,
    {
        proof {
            lemma_view_parts(*self);
            lemma_error_free_parts(*self);
        }
        match &self.expr {
            Expr::I32Const(_) => true,
            Expr::I64Const(_) => true,
            Expr::F32Const(_) => true,
            Expr::F64Const(_) => true,
            Expr::Variable { .. } => true,
            Expr::Let { value, .. } => match value {
                Some(v) => v.is_error_free(),
                None => true,
            },
            Expr::Assign { value, .. } => value.is_error_free(),
            Expr::LocalTee { value, .. } => value.is_error_free(),
            Expr::Peek(m) => m.left.is_error_free() && m.right.is_error_free(),
            Expr::Poke { mem_location, value } => mem_location.left.is_error_free()
                && mem_location.right.is_error_free() && value.is_error_free(),
            Expr::UnaryOp { value, .. } => value.is_error_free(),
            Expr::BinOp { left, right, .. } => left.is_error_free() && right.is_error_free(),
            Expr::Block(b) => all_error_free(&b.statements) && match &b.final_expression {
                Some(f) => f.is_error_free(),
                None => true,
            },
            Expr::Loop { block, .. } => block.is_error_free(),
            Expr::LabelBlock { block, .. } => block.is_error_free(),
            Expr::Branch(_) => true,
            Expr::BranchIf { condition, .. } => condition.is_error_free(),
            Expr::Cast { value, .. } => value.is_error_free(),
            Expr::FuncCall { params, .. } => all_error_free(params),
            Expr::Select { condition, if_true, if_false } => condition.is_error_free()
                && if_true.is_error_free() && if_false.is_error_free(),
            Expr::If { condition, if_true, if_false } => condition.is_error_free()
                && if_true.is_error_free() && match if_false {
                Some(f) => f.is_error_free(),
                None => true,
            },
            Expr::Return { value } => match value {
                Some(v) => v.is_error_free(),
                None => true,
            },
            Expr::First { value, drop } => value.is_error_free() && drop.is_error_free(),
            Expr::Error => false,
        }
    }
}

/// A local of a function: a parameter or a variable that a `let` declares.
/// `index` is its storage slot; an inline local has none.
#[derive(Clone, Debug, PartialEq)]
pub struct Local {
    pub span: Span,
    pub name: String,
    pub type_: Type,
    pub index: Option<usize>,
}

/// What a local stands for in contracts.
pub ghost struct LocalView {
    pub span: Span,
    pub name: Seq<char>,
    pub type_: Type,
    pub index: Option<usize>,
}

impl View for Local {
    type V = LocalView;

    open spec fn view(&self) -> LocalView {
        LocalView { span: self.span, name: self.name@, type_: self.type_, index: self.index }
    }
}

/// The locals of one function, in the order of their declaration. A local's
/// id is its position; the first `params` of them are the parameters.
#[derive(Clone, Debug, PartialEq)]
pub struct Locals {
    pub params: usize,
    pub locals: Vec<Local>,
}

/// What the locals of a function stand for in contracts.
pub ghost struct LocalsView {
    pub params: nat,
    pub locals: Seq<LocalView>,
}

impl LocalsView {
    /// No locals at all.
    pub open spec fn empty() -> LocalsView {
        LocalsView { params: 0, locals: Seq::empty() }
    }

    /// The parameters come first and sit in the slots of their positions.
    pub open spec fn wf(self) -> bool {
        &&& self.params <= self.locals.len()
        &&& forall|i: int| 0 <= i < self.params ==> (#[trigger] self.locals[i]).index == Some(i as usize)
    }

    /// A parameter sits in the slot of its position.
    pub open spec fn add_param(self, span: Span, name: Seq<char>, type_: Type) -> LocalsView {
        LocalsView {
            params: self.params + 1,
            locals: self.locals.push(
                LocalView { span, name, type_, index: Some(self.locals.len() as usize) },
            ),
        }
    }

    /// A stored local gets slot 0 for the time being; the slots are given
    /// out when the whole function is known.
    pub open spec fn add_local(self, span: Span, name: Seq<char>, type_: Type, store: bool)
        -> LocalsView {
        LocalsView {
            params: self.params,
            locals: self.locals.push(
                LocalView { span, name, type_, index: if store { Some(0usize) } else { None } },
            ),
        }
    }
}

impl View for Locals {
    type V = LocalsView;

    open spec fn view(&self) -> LocalsView {
        LocalsView {
            params: self.params as nat,
            locals: Seq::new(self.locals@.len(), |i: int| self.locals@[i]@),
        }
    }
}

impl Locals {
    pub fn new() -> (r: Locals)
        ensures
            r@ == LocalsView::empty(),
    {
        let r = Locals { params: 0, locals: Vec::new() };
        assert(r@.locals =~= Seq::empty());
        r
    }

    /// Appends a parameter and returns its id. Parameters come before all
    /// other locals.
    pub fn add_param(&mut self, span: Span, name: String, type_: Type) -> (id: usize)
        requires
            old(self)@.params == old(self)@.locals.len(),
        ensures
            id == old(self)@.locals.len(),
            final(self)@ == old(self)@.add_param(span, name@, type_),
    {
        let id = self.locals.len();
        self.locals.push(Local { span, name, type_, index: Some(id) });
        self.params = self.locals.len();
        assert(self@.locals =~= old(self)@.add_param(span, name@, type_).locals);
        id
    }

    /// Appends a local that a `let` declares and returns its id.
    pub fn add_local(&mut self, span: Span, name: String, type_: Type, store: bool) -> (id: usize)
        ensures
            id == old(self)@.locals.len(),
            final(self)@ == old(self)@.add_local(span, name@, type_, store),
    {
        let id = self.locals.len();
        self.locals.push(Local { span, name, type_, index: if store { Some(0) } else { None } });
        assert(self@.locals =~= old(self)@.add_local(span, name@, type_, store).locals);
        id
    }

    /// The local with the given id.
    pub fn get(&self, id: usize) -> (r: &Local)
        requires
            id < self@.locals.len(),
        ensures
            r@ == self@.locals[id as int],
    {
        &self.locals[id]
    }
}

/// What an import brings in.
#[derive(Clone, Debug, PartialEq)]
pub enum ImportType {
    /// Linear memory of at least so many pages.
    Memory(u32),
    Variable { name: String, type_: Type, mutable: bool },
    Function { name: String, params: Vec<Type>, result: Option<Type> },
}

/// What the kind of an import stands for in contracts.
pub ghost enum ImportTypeView {
    Memory(u32),
    Variable { name: Seq<char>, type_: Type, mutable: bool },
    Function { name: Seq<char>, params: Seq<Type>, result: Option<Type> },
}

impl View for ImportType {
    type V = ImportTypeView;

    open spec fn view(&self) -> ImportTypeView {
        match self {
            ImportType::Memory(n) => ImportTypeView::Memory(*n),
            ImportType::Variable { name, type_, mutable } => ImportTypeView::Variable {
                name: name@,
                type_: *type_,
                mutable: *mutable,
            },
            ImportType::Function { name, params, result } => ImportTypeView::Function {
                name: name@,
                params: params@,
                result: *result,
            },
        }
    }
}

/// Something that the script takes from outside.
#[derive(Clone, Debug, PartialEq)]
pub struct Import {
    pub span: Span,
    /// Where the item comes from.
    pub import: String,
    pub type_: ImportType,
}

/// What an import stands for in contracts.
pub ghost struct ImportView {
    pub span: Span,
    pub import: Seq<char>,
    pub type_: ImportTypeView,
}

impl View for Import {
    type V = ImportView;

    open spec fn view(&self) -> ImportView {
        ImportView { span: self.span, import: self.import@, type_: self.type_@ }
    }
}

/// A global variable with its constant initial value. The type may be left
/// to the value.
#[derive(Debug, PartialEq)]
pub struct GlobalVar {
    pub span: Span,
    pub name: String,
    pub value: Expression,
    pub type_: Option<Type>,
    pub mutable: bool,
}

/// What a global variable stands for in contracts.
pub ghost struct GlobalVarView {
    pub span: Span,
    pub name: Seq<char>,
    pub value: ExpressionView,
    pub type_: Option<Type>,
    pub mutable: bool,
}

impl View for GlobalVar {
    type V = GlobalVarView;

    open spec fn view(&self) -> GlobalVarView {
        GlobalVarView {
            span: self.span,
            name: self.name@,
            value: self.value@,
            type_: self.type_,
            mutable: self.mutable,
        }
    }
}

/// A function of the script. The start function runs once when the module
/// is set up.
#[derive(Debug, PartialEq)]
pub struct Function {
    pub span: Span,
    pub export: bool,
    pub start: bool,
    pub name: String,
    pub params: Vec<(String, Type)>,
    pub type_: Option<Type>,
    pub body: Expression,
    /// Filled in by the type checker.
    pub locals: Locals,
}

/// What a function stands for in contracts.
pub ghost struct FunctionView {
    pub span: Span,
    pub export: bool,
    pub start: bool,
    pub name: Seq<char>,
    pub params: Seq<(Seq<char>, Type)>,
    pub type_: Option<Type>,
    pub body: ExpressionView,
    pub locals: LocalsView,
}

impl View for Function {
    type V = FunctionView;

    open spec fn view(&self) -> FunctionView {
        FunctionView {
            span: self.span,
            export: self.export,
            start: self.start,
            name: self.name@,
            params: Seq::new(
                self.params@.len(),
                |i: int| (self.params@[i].0@, self.params@[i].1),
            ),
            type_: self.type_,
            body: self.body@,
            locals: self.locals@,
        }
    }
}

impl Function {
    /// How the function is visible outside the module.
    pub fn visibility(&self) -> (v: Visibility)
        ensures
            v == (if self.export {
                Visibility::Export
            } else {
                Visibility::Local
            }),
    {
        if self.export {
            Visibility::Export
        } else {
            Visibility::Local
        }
    }
}

/// The values of one part of a data segment.
#[derive(Debug, PartialEq)]
pub enum DataValues {
    Array { type_: DataType, values: Vec<Expression> },
    String(String),
    File { path: String },
}

/// What the values of a part of a data segment stand for in contracts.
pub ghost enum DataValuesView {
    Array { type_: DataType, values: Seq<ExpressionView> },
    String(Seq<char>),
    File { path: Seq<char> },
}

impl View for DataValues {
    type V = DataValuesView;

    open spec fn view(&self) -> DataValuesView {
        match self {
            DataValues::Array { type_, values } => DataValuesView::Array {
                type_: *type_,
                values: expression_views(values@),
            },
            DataValues::String(s) => DataValuesView::String(s@),
            DataValues::File { path } => DataValuesView::File { path: path@ },
        }
    }
}

/// Bytes to place in memory at a constant offset.
#[derive(Debug, PartialEq)]
pub struct Data {
    pub offset: Box<Expression>,
    pub data: Vec<DataValues>,
}

/// What a data segment stands for in contracts.
pub ghost struct DataView {
    pub offset: ExpressionView,
    pub data: Seq<DataValuesView>,
}

impl View for Data {
    type V = DataView;

    open spec fn view(&self) -> DataView {
        DataView {
            offset: self.offset@,
            data: Seq::new(self.data@.len(), |i: int| self.data@[i]@),
        }
    }
}

/// Something that stands at the top level of a script.
#[derive(Debug, PartialEq)]
pub enum TopLevelItem {
    Import(Import),
    GlobalVar(GlobalVar),
    Function(Function),
    Data(Data),
}

/// A whole program.
#[derive(Debug, PartialEq)]
pub struct Script {
    pub imports: Vec<Import>,
    pub global_vars: Vec<GlobalVar>,
    pub functions: Vec<Function>,
    pub data: Vec<Data>,
}

/// What a script stands for in contracts.
pub ghost struct ScriptView {
    pub imports: Seq<ImportView>,
    pub global_vars: Seq<GlobalVarView>,
    pub functions: Seq<FunctionView>,
    pub data: Seq<DataView>,
}

impl View for Script {
    type V = ScriptView;

    open spec fn view(&self) -> ScriptView {
        ScriptView {
            imports: import_views(self.imports@),
            global_vars: global_views(self.global_vars@),
            functions: function_views(self.functions@),
            data: data_views(self.data@),
        }
    }
}

/// The views of a sequence of imports, element by element.
pub open spec fn import_views(s: Seq<Import>) -> Seq<ImportView> {
    Seq::new(s.len(), |i: int| s[i]@)
}

/// The views of a sequence of globals, element by element.
pub open spec fn global_views(s: Seq<GlobalVar>) -> Seq<GlobalVarView> {
    Seq::new(s.len(), |i: int| s[i]@)
}

/// The views of a sequence of functions, element by element.
pub open spec fn function_views(s: Seq<Function>) -> Seq<FunctionView> {
    Seq::new(s.len(), |i: int| s[i]@)
}

/// The views of a sequence of data segments, element by element.
pub open spec fn data_views(s: Seq<Data>) -> Seq<DataView> {
    Seq::new(s.len(), |i: int| s[i]@)
}

} // verus!
