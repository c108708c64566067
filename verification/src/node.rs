//! The abstract syntax tree: declarations, statements, expressions, types and constants,
//! with their mathematical models.

use vstd::prelude::*;

verus! {

/// A binary operator.
#[derive(Debug, Clone, Copy, PartialEq, Eq)]
pub enum Bop {
    Plus,
    Exp,
    Minus,
    Multiply,
    Divide,
    Eq,
    Neq,
    Leq,
    Geq,
    Lt,
    Gt,
    And,
    Or,
}

/// A unary operator.
#[derive(Debug, Clone, Copy, PartialEq, Eq)]
pub enum Uop {
    Not,
    Minus,
}

/// A runtime value. A floating value is held as the bit pattern of its 64 bits.
#[derive(Debug, PartialEq)]
pub enum Const {
    Int(i32),
    Float(u64),
    Bool(bool),
    Char(char),
    String(String),
}

/// The model of a [`Const`]: the same variants, with text as a sequence of characters.
pub ghost enum ConstModel {
    Int(i32),
    Float(u64),
    Bool(bool),
    Char(char),
    String(Seq<char>),
}

impl View for Const {
    type V = ConstModel;

    open spec fn view(&self) -> ConstModel {
        match self {
            Const::Int(n) => ConstModel::Int(*n),
            Const::Float(bits) => ConstModel::Float(*bits),
            Const::Bool(b) => ConstModel::Bool(*b),
            Const::Char(c) => ConstModel::Char(*c),
            Const::String(s) => ConstModel::String(s@),
        }
    }
}

impl Clone for Const {
    /// A copy of the value.
    fn clone(&self) -> (copy: Const)
        ensures
            copy == *self,
    {
        match self {
            Const::Int(n) => Const::Int(*n),
            Const::Float(bits) => Const::Float(*bits),
            Const::Bool(b) => Const::Bool(*b),
            Const::Char(c) => Const::Char(*c),
            Const::String(s) => Const::String(s.clone()),
        }
    }
}

/// The models of a sequence of values, in order.
pub open spec fn const_models(values: Seq<Const>) -> Seq<ConstModel> {
    Seq::new(values.len(), |i: int| values[i]@)
}

/// A type as the source writes it: an array of a type, a function type with its
/// parameter types and its optional return type, or a type named by an identifier.
#[derive(Debug, PartialEq)]
pub enum TypeNode {
    Array(Box<TypeNode>),
    Fn(Vec<TypeNode>, Option<Box<TypeNode>>),
    Iden(String),
}

/// The model of a [`TypeNode`].
pub ghost enum TypeModel {
    Array(Box<TypeModel>),
    Fn(Seq<TypeModel>, Option<Box<TypeModel>>),
    Iden(Seq<char>),
}

impl TypeNode {
    /// The model of the type.
    pub open spec fn model(self) -> TypeModel
        decreases self,
    {
        match self {
            TypeNode::Array(of) => TypeModel::Array(Box::new((*of).model())),
            TypeNode::Fn(args, ret) => TypeModel::Fn(
                Seq::new(
                    args.len() as nat,
                    |i: int|
                        if 0 <= i < args.len() {
                            args[i].model()
                        } else {
                            TypeModel::Iden(Seq::empty())
                        },
                ),
                match ret {
                    Some(of) => Some(Box::new((*of).model())),
                    None => None,
                },
            ),
            TypeNode::Iden(name) => TypeModel::Iden(name@),
        }
    }
}

impl View for TypeNode {
    type V = TypeModel;

    open spec fn view(&self) -> TypeModel {
        self.model()
    }
}

/// The models of a sequence of types, in order.
pub open spec fn type_models(types: Seq<TypeNode>) -> Seq<TypeModel> {
    Seq::new(types.len(), |i: int| types[i]@)
}

/// The model of an optional type.
pub open spec fn optional_type_model(of: Option<TypeNode>) -> Option<TypeModel> {
    match of {
        Some(t) => Some(t@),
        None => None,
    }
}

/// The models of a sequence of names with their types, in order.
pub open spec fn pair_models(pairs: Seq<(String, TypeNode)>) -> Seq<(Seq<char>, TypeModel)> {
    Seq::new(pairs.len(), |i: int| (pairs[i].0@, pairs[i].1@))
}

/// The models of a sequence of names with their optional types, in order.
pub open spec fn optional_pair_models(pairs: Seq<(String, Option<TypeNode>)>) -> Seq<
    (Seq<char>, Option<TypeModel>),
> {
    Seq::new(pairs.len(), |i: int| (pairs[i].0@, optional_type_model(pairs[i].1)))
}

/// The definition of a function: its name, its parameters with their types, its optional
/// return type, and its body.
#[derive(Debug, PartialEq)]
pub struct DefFuncNode {
    pub iden: String,
    pub args: Vec<(String, TypeNode)>,
    pub ret: Option<TypeNode>,
    pub body: Vec<Node>,
}

/// The definition of a struct: its name, and its fields with their types.
#[derive(Debug, PartialEq)]
pub struct DefStructNode {
    pub iden: String,
    pub fields: Vec<(String, TypeNode)>,
}

/// The definition of a type alias: its name, and the type it stands for.
#[derive(Debug, PartialEq)]
pub struct DefTypeAliasNode {
    pub iden: String,
    pub type_node: TypeNode,
}

/// An import: the identifier that is imported.
#[derive(Debug, PartialEq)]
pub struct ImportNode {
    pub iden: String,
}

/// A conditional with a body.
#[derive(Debug, PartialEq)]
pub struct IfNode {
    pub cond: Box<Node>,
    pub body: Vec<Node>,
}

/// A conditional with a single expression.
#[derive(Debug, PartialEq)]
pub struct GuardNode {
    pub cond: Box<Node>,
    pub this: Box<Node>,
}

/// A loop that runs while its condition holds.
#[derive(Debug, PartialEq)]
pub struct WhileNode {
    pub cond: Box<Node>,
    pub body: Vec<Node>,
}

/// A loop over the elements of a collection, with an optional index.
#[derive(Debug, PartialEq)]
pub struct ForNode {
    pub element: String,
    pub index: Option<String>,
    pub collection: Box<Node>,
}

/// A function with its arguments.
#[derive(Debug, PartialEq)]
pub struct FuncNode {
    pub iden: String,
    pub args: Vec<Node>,
}

/// A struct literal: the name of the struct, and its fields with their expressions.
#[derive(Debug, PartialEq)]
pub struct StructNode {
    pub iden: String,
    pub fields: Vec<(String, Node)>,
}

/// A lambda: its parameters with their optional types, and its body.
#[derive(Debug, PartialEq)]
pub struct LambdaNode {
    pub args: Vec<(String, Option<TypeNode>)>,
    pub body: Box<Node>,
}

/// A binary operation.
#[derive(Debug, PartialEq)]
pub struct BinopNode {
    pub op: Bop,
    pub lhs: Box<Node>,
    pub rhs: Box<Node>,
}

/// A unary operation.
#[derive(Debug, PartialEq)]
pub struct UnopNode {
    pub op: Uop,
    pub expr: Box<Node>,
}

/// A declaration, a statement or an expression.
#[derive(Debug, PartialEq)]
pub enum Node {
    DefFunc(DefFuncNode),
    DefStruct(DefStructNode),
    DefTypeAlias(DefTypeAliasNode),
    Import(ImportNode),
    Constant(Const),
    Variable(String),
    Binop(BinopNode),
    Unop(UnopNode),
    CallFunc(FuncNode),
    If(IfNode),
    Else(Vec<Node>),
    Guard(GuardNode),
    While(WhileNode),
    For(ForNode),
    Assign(String, Box<Node>),
    Return(Box<Node>),
    Break,
    Continue,
    Func(FuncNode),
    Struct(StructNode),
    Array(Vec<Node>),
    Tuple(Vec<Node>),
    Range(i32, i32),
    Lambda(LambdaNode),
}

/// The model of a [`Node`]: the same variants, with the fields of each node written out,
/// text as a sequence of characters, and children as models.
#[allow(inconsistent_fields)]
pub ghost enum NodeModel {
    DefFunc {
        iden: Seq<char>,
        args: Seq<(Seq<char>, TypeModel)>,
        ret: Option<TypeModel>,
        body: Seq<NodeModel>,
    },
    DefStruct { iden: Seq<char>, fields: Seq<(Seq<char>, TypeModel)> },
    DefTypeAlias { iden: Seq<char>, type_node: TypeModel },
    Import { iden: Seq<char> },
    Constant(ConstModel),
    Variable(Seq<char>),
    Binop { op: Bop, lhs: Box<NodeModel>, rhs: Box<NodeModel> },
    Unop { op: Uop, expr: Box<NodeModel> },
    CallFunc { iden: Seq<char>, args: Seq<NodeModel> },
    If { cond: Box<NodeModel>, body: Seq<NodeModel> },
    Else(Seq<NodeModel>),
    Guard { cond: Box<NodeModel>, this: Box<NodeModel> },
    While { cond: Box<NodeModel>, body: Seq<NodeModel> },
    For { element: Seq<char>, index: Option<Seq<char>>, collection: Box<NodeModel> },
    Assign(Seq<char>, Box<NodeModel>),
    Return(Box<NodeModel>),
    Break,
    Continue,
    Func { iden: Seq<char>, args: Seq<NodeModel> },
    Struct { iden: Seq<char>, fields: Seq<(Seq<char>, NodeModel)> },
    Array(Seq<NodeModel>),
    Tuple(Seq<NodeModel>),
    Range(i32, i32),
    Lambda { args: Seq<(Seq<char>, Option<TypeModel>)>, body: Box<NodeModel> },
}

impl Node {
    /// The model of the node.
    pub open spec fn model(self) -> NodeModel
        decreases self,
    {
        match self {
            Node::DefFunc(def) => NodeModel::DefFunc {
                iden: def.iden@,
                args: pair_models(def.args@),
                ret: optional_type_model(def.ret),
                body: Seq::new(
                    def.body.len() as nat,
                    |i: int|
                        if 0 <= i < def.body.len() {
                            def.body[i].model()
                        } else {
                            NodeModel::Break
                        },
                ),
            },
            Node::DefStruct(def) => NodeModel::DefStruct {
                iden: def.iden@,
                fields: pair_models(def.fields@),
            },
            Node::DefTypeAlias(def) => NodeModel::DefTypeAlias {
                iden: def.iden@,
                type_node: def.type_node@,
            },
            Node::Import(import) => NodeModel::Import { iden: import.iden@ },
            Node::Constant(value) => NodeModel::Constant(value@),
            Node::Variable(name) => NodeModel::Variable(name@),
            Node::Binop(binop) => NodeModel::Binop {
                op: binop.op,
                lhs: Box::new((*binop.lhs).model()),
                rhs: Box::new((*binop.rhs).model()),
            },
            Node::Unop(unop) => NodeModel::Unop { op: unop.op, expr: Box::new((*unop.expr).model()) },
            Node::CallFunc(call) => NodeModel::CallFunc {
                iden: call.iden@,
                args: Seq::new(
                    call.args.len() as nat,
                    |i: int|
                        if 0 <= i < call.args.len() {
                            call.args[i].model()
                        } else {
                            NodeModel::Break
                        },
                ),
            },
            Node::If(branch) => NodeModel::If {
                cond: Box::new((*branch.cond).model()),
                body: Seq::new(
                    branch.body.len() as nat,
                    |i: int|
                        if 0 <= i < branch.body.len() {
                            branch.body[i].model()
                        } else {
                            NodeModel::Break
                        },
                ),
            },
            Node::Else(body) => NodeModel::Else(
                Seq::new(
                    body.len() as nat,
                    |i: int|
                        if 0 <= i < body.len() {
                            body[i].model()
                        } else {
                            NodeModel::Break
                        },
                ),
            ),
            Node::Guard(guard) => NodeModel::Guard {
                cond: Box::new((*guard.cond).model()),
                this: Box::new((*guard.this).model()),
            },
            Node::While(repeat) => NodeModel::While {
                cond: Box::new((*repeat.cond).model()),
                body: Seq::new(
                    repeat.body.len() as nat,
                    |i: int|
                        if 0 <= i < repeat.body.len() {
                            repeat.body[i].model()
                        } else {
                            NodeModel::Break
                        },
                ),
            },
            Node::For(each) => NodeModel::For {
                element: each.element@,
                index: match each.index {
                    Some(name) => Some(name@),
                    None => None,
                },
                collection: Box::new((*each.collection).model()),
            },
            Node::Assign(name, value) => NodeModel::Assign(name@, Box::new((*value).model())),
            Node::Return(value) => NodeModel::Return(Box::new((*value).model())),
            Node::Break => NodeModel::Break,
            Node::Continue => NodeModel::Continue,
            Node::Func(call) => NodeModel::Func {
                iden: call.iden@,
                args: Seq::new(
                    call.args.len() as nat,
                    |i: int|
                        if 0 <= i < call.args.len() {
                            call.args[i].model()
                        } else {
                            NodeModel::Break
                        },
                ),
            },
            Node::Struct(literal) => NodeModel::Struct {
                iden: literal.iden@,
                fields: Seq::new(
                    literal.fields.len() as nat,
                    |i: int|
                        if 0 <= i < literal.fields.len() {
                            (literal.fields[i].0@, literal.fields[i].1.model())
                        } else {
                            (Seq::empty(), NodeModel::Break)
                        },
                ),
            },
            Node::Array(items) => NodeModel::Array(
                Seq::new(
                    items.len() as nat,
                    |i: int|
                        if 0 <= i < items.len() {
                            items[i].model()
                        } else {
                            NodeModel::Break
                        },
                ),
            ),
            Node::Tuple(items) => NodeModel::Tuple(
                Seq::new(
                    items.len() as nat,
                    |i: int|
                        if 0 <= i < items.len() {
                            items[i].model()
                        } else {
                            NodeModel::Break
                        },
                ),
            ),
            Node::Range(from, to) => NodeModel::Range(from, to),
            Node::Lambda(lambda) => NodeModel::Lambda {
                args: optional_pair_models(lambda.args@),
                body: Box::new((*lambda.body).model()),
            },
        }
    }
}

impl View for Node {
    type V = NodeModel;

    open spec fn view(&self) -> NodeModel {
        self.model()
    }
}

/// The models of a sequence of nodes, in order.
pub open spec fn node_models(nodes: Seq<Node>) -> Seq<NodeModel> {
    Seq::new(nodes.len(), |i: int| nodes[i]@)
}

} // verus!
