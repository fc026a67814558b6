use vstd::prelude::*;

verus! {

/// A node of the syntax tree. A node owns its children: the tree has no
/// sharing and no cycles.
#[derive(Debug, PartialEq, Eq)]
pub enum Tree {
    Program { body: Box<Vec<Tree>> },
    ExpressionStatement { expression: Box<Tree> },
    BlockStatement { body: Box<Vec<Tree>> },
    EmptyStatement,
    AssignmentExpression { operator: String, left: Box<Tree>, right: Box<Tree> },
    BinaryExpression { operator: String, left: Box<Tree>, right: Box<Tree> },
    LogicalExpression { operator: String, left: Box<Tree>, right: Box<Tree> },
    UnaryExpression { operator: String, argument: Box<Tree> },
    MemberExpression { object: Box<Tree>, property: Box<Tree>, computed: bool },
    CallExpression { callee: Box<Tree>, arguments: Box<Vec<Tree>> },
    Identifier { name: String },
    NumericLiteral { value: String },
    StringLiteral { value: String },
}

/// The mathematical value of a [`Tree`].
pub enum Node {
    Program { body: Seq<Node> },
    ExpressionStatement { expression: Box<Node> },
    BlockStatement { body: Seq<Node> },
    EmptyStatement,
    AssignmentExpression { operator: Seq<char>, left: Box<Node>, right: Box<Node> },
    BinaryExpression { operator: Seq<char>, left: Box<Node>, right: Box<Node> },
    LogicalExpression { operator: Seq<char>, left: Box<Node>, right: Box<Node> },
    UnaryExpression { operator: Seq<char>, argument: Box<Node> },
    MemberExpression { object: Box<Node>, property: Box<Node>, computed: bool },
    CallExpression { callee: Box<Node>, arguments: Seq<Node> },
    Identifier { name: Seq<char> },
    NumericLiteral { value: Seq<char> },
    StringLiteral { value: Seq<char> },
}

impl Node {
    /// Whether the node is a statement.
    pub open spec fn is_statement(self) -> bool {
        self is ExpressionStatement || self is BlockStatement || self is EmptyStatement
    }

    /// Whether the node is an expression.
    pub open spec fn is_expression(self) -> bool {
        !self.is_statement() && !(self is Program)
    }

    /// Whether the tree is one that the grammar can yield: programs and blocks
    /// hold statements, every other child is an expression, the left side of
    /// an assignment is an identifier, and so is the property of a member
    /// expression that is not computed.
    pub open spec fn well_formed(self) -> bool
        decreases self,
    {
        match self {
            Node::Program { body } => forall|i: int|
                0 <= i < body.len() ==> body[i].is_statement() && body[i].well_formed(),
            Node::ExpressionStatement { expression } => expression.is_expression()
                && expression.well_formed(),
            Node::BlockStatement { body } => forall|i: int|
                0 <= i < body.len() ==> body[i].is_statement() && body[i].well_formed(),
            Node::EmptyStatement => true,
            Node::AssignmentExpression { operator, left, right } => *left is Identifier
                && right.is_expression() && right.well_formed(),
            Node::BinaryExpression { operator, left, right } => left.is_expression()
                && left.well_formed() && right.is_expression() && right.well_formed(),
            Node::LogicalExpression { operator, left, right } => left.is_expression()
                && left.well_formed() && right.is_expression() && right.well_formed(),
            Node::UnaryExpression { operator, argument } => argument.is_expression()
                && argument.well_formed(),
            Node::MemberExpression { object, property, computed } => object.is_expression()
                && object.well_formed() && property.is_expression() && property.well_formed() && (
            !computed ==> *property is Identifier),
            Node::CallExpression { callee, arguments } => callee.is_expression()
                && callee.well_formed() && forall|i: int|
                0 <= i < arguments.len() ==> arguments[i].is_expression()
                    && arguments[i].well_formed(),
            Node::Identifier { name } => true,
            Node::NumericLiteral { value } => true,
            Node::StringLiteral { value } => true,
        }
    }
}

/// Whether every tree of a list is a well-formed expression.
pub open spec fn all_expressions(list: Seq<Node>) -> bool {
    forall|i: int| 0 <= i < list.len() ==> list[i].is_expression() && list[i].well_formed()
}

/// Whether every tree of a list is a well-formed statement.
pub open spec fn all_statements(list: Seq<Node>) -> bool {
    forall|i: int| 0 <= i < list.len() ==> list[i].is_statement() && list[i].well_formed()
}

impl Tree {
    /// The mathematical value of the tree: the same shape, with sequences in
    /// place of vectors and strings. (A list keeps its length; the test on the
    /// index in it only serves to show that the definition is well-founded.)
    pub open spec fn model(&self) -> Node
        decreases self,
    {
        match self {
            Tree::Program { body } => Node::Program {
                body: Seq::new(body@.len(), |i: int| if 0 <= i < body@.len() { body@[i].model() } else { Node::EmptyStatement }),
            },
            Tree::ExpressionStatement { expression } => Node::ExpressionStatement {
                expression: Box::new(expression.model()),
            },
            Tree::BlockStatement { body } => Node::BlockStatement {
                body: Seq::new(body@.len(), |i: int| if 0 <= i < body@.len() { body@[i].model() } else { Node::EmptyStatement }),
            },
            Tree::EmptyStatement => Node::EmptyStatement,
            Tree::AssignmentExpression { operator, left, right } => Node::AssignmentExpression {
                operator: operator@,
                left: Box::new(left.model()),
                right: Box::new(right.model()),
            },
            Tree::BinaryExpression { operator, left, right } => Node::BinaryExpression {
                operator: operator@,
                left: Box::new(left.model()),
                right: Box::new(right.model()),
            },
            Tree::LogicalExpression { operator, left, right } => Node::LogicalExpression {
                operator: operator@,
                left: Box::new(left.model()),
                right: Box::new(right.model()),
            },
            Tree::UnaryExpression { operator, argument } => Node::UnaryExpression {
                operator: operator@,
                argument: Box::new(argument.model()),
            },
            Tree::MemberExpression { object, property, computed } => Node::MemberExpression {
                object: Box::new(object.model()),
                property: Box::new(property.model()),
                computed: *computed,
            },
            Tree::CallExpression { callee, arguments } => Node::CallExpression {
                callee: Box::new(callee.model()),
                arguments: Seq::new(arguments@.len(), |i: int| if 0 <= i < arguments@.len() { arguments@[i].model() } else { Node::EmptyStatement }),
            },
            Tree::Identifier { name } => Node::Identifier { name: name@ },
            Tree::NumericLiteral { value } => Node::NumericLiteral { value: value@ },
            Tree::StringLiteral { value } => Node::StringLiteral { value: value@ },
        }
    }
}

impl View for Tree {
    type V = Node;

    open spec fn view(&self) -> Node {
        self.model()
    }
}

/// The mathematical values of a list of trees, in the same order.
pub open spec fn models(trees: Seq<Tree>) -> Seq<Node> {
    Seq::new(trees.len(), |i: int| trees[i]@)
}

impl Tree {
    /// A program with the statements `body`.
    pub fn program(body: Vec<Tree>) -> (tree: Tree)
        ensures
            tree@ == (Node::Program { body: models(body@) }),
    {
        let tree = Tree::Program { body: Box::new(body) };
        assert(tree@->Program_body =~= models(body@));
        tree
    }

    /// A block with the statements `body`.
    pub fn block(body: Vec<Tree>) -> (tree: Tree)
        ensures
            tree@ == (Node::BlockStatement { body: models(body@) }),
    {
        let tree = Tree::BlockStatement { body: Box::new(body) };
        assert(tree@->BlockStatement_body =~= models(body@));
        tree
    }

    /// A call of `callee` with the arguments `arguments`.
    pub fn call(callee: Tree, arguments: Vec<Tree>) -> (tree: Tree)
        ensures
            tree@ == (Node::CallExpression {
                callee: Box::new(callee@),
                arguments: models(arguments@),
            }),
    {
        let tree = Tree::CallExpression { callee: Box::new(callee), arguments: Box::new(arguments) };
        assert(tree@->CallExpression_arguments =~= models(arguments@));
        tree
    }
}

} // verus!
