use styxc_syntax::ast::expr::Expr;
use styxc_syntax::ast::func::{ExternFunc, FuncCall, FuncDecl, ParenArgument};
use styxc_syntax::ast::types::{Type, TypeExpr};
use styxc_syntax::ast::{
    BinOpKind, Block, FuncDeclare, Ident, Mutability, Node, UnOpKind, Variable,
};
use styxc_syntax::lexer::{tokenize, TokenType};

fn name(id: i64, val: &str) -> Ident {
    Ident { id, val: val.into() }
}

fn parameter(start: usize, id: i64, val: &str, ty: &str) -> Node<ParenArgument> {
    let ident = Node::new(start, val.len(), name(id, val));
    let type_expr = Node::new(start + val.len() + 2, ty.len(), TypeExpr { name: name(0, ty) });
    Node::new(start, val.len() + 2 + ty.len(), ParenArgument::new(ident, type_expr))
}

fn all_binary() -> Vec<BinOpKind> {
    vec![
        BinOpKind::Add,
        BinOpKind::Sub,
        BinOpKind::Mul,
        BinOpKind::Div,
        BinOpKind::Mod,
        BinOpKind::Eq,
        BinOpKind::Lt,
        BinOpKind::Gt,
        BinOpKind::Le,
        BinOpKind::Ge,
        BinOpKind::Shr,
        BinOpKind::Shl,
    ]
}

#[test]
fn binary_operators_and_their_symbols() {
    let symbols: Vec<&str> = all_binary().iter().map(|kind| kind.to_string()).collect();
    assert_eq!(
        symbols,
        vec!["+", "-", "*", "/", "%", "==", "<", ">", "<=", ">=", ">>", "<<"]
    );
}

#[test]
fn no_two_binary_operators_share_a_symbol() {
    let all = all_binary();
    for (i, a) in all.iter().enumerate() {
        for (j, b) in all.iter().enumerate() {
            assert_eq!(a.to_string() == b.to_string(), i == j);
        }
    }
}

#[test]
fn comparisons_are_told_from_the_rest() {
    let comparisons: Vec<bool> = all_binary().iter().map(|kind| kind.is_comparison()).collect();
    assert_eq!(
        comparisons,
        vec![false, false, false, false, false, true, true, true, true, true, false, false]
    );
}

#[test]
fn unary_operators_and_their_symbols() {
    assert_eq!(UnOpKind::Not.to_string(), "!");
    assert_eq!(UnOpKind::Neg.to_string(), "-");
}

#[test]
fn comparison_symbols_are_comparison_tokens() {
    for kind in all_binary() {
        let tokens = tokenize(kind.to_string());
        let compares = tokens.len() == 1
            && matches!(
                tokens[0].token_type,
                TokenType::Eq | TokenType::Lt | TokenType::Gt | TokenType::Le | TokenType::Ge
            );
        assert_eq!(compares, kind.is_comparison());
    }
}

#[test]
fn func_decl_keeps_its_parameters_in_order() {
    let first = parameter(7, 1, "left", "int");
    let second = parameter(18, 2, "right", "int");
    let body = Node::new(30, 2, Block { parent: None, exprs: Vec::new() });
    let decl = FuncDecl::new(
        Node::new(3, 3, name(0, "add")),
        vec![first.clone(), second.clone()],
        body,
    );
    assert_eq!(decl.arity(), 2);
    assert_eq!(decl.arg(0), Some(&first));
    assert_eq!(decl.arg(1), Some(&second));
    assert_eq!(decl.arg(2), None);
    assert_eq!(decl.args, vec![first, second]);
    assert_eq!(decl.args[0].value.ident.value.val, "left");
    assert_eq!(decl.args[1].value.ident.value.val, "right");
    assert_eq!(decl.ident.value.val, "add");
    assert_eq!(decl.body.value.exprs.len(), 0);
}

#[test]
fn extern_func_always_has_a_return_type() {
    let ret = Node::new(20, 3, TypeExpr { name: name(0, "int") });
    let func = ExternFunc::new(
        Node::new(7, 4, name(5, "puts")),
        vec![parameter(12, 6, "s", "str")],
        ret.clone(),
    );
    assert_eq!(func.ret_type_expr, ret);
    assert_eq!(func.ret_type_expr.value.name.val, "int");
    assert_eq!(func.arity(), 1);
    assert_eq!(func.arg(0).map(|arg| arg.value.ident.value.id), Some(6));
    assert_eq!(func.arg(1), None);
    let bare = ExternFunc::new(Node::new(0, 1, name(1, "f")), Vec::new(), ret.clone());
    assert_eq!(bare.arity(), 0);
    assert_eq!(bare.arg(0), None);
    assert_eq!(bare.ret_type_expr, ret);
}

#[test]
fn func_call_keeps_its_arguments_in_order() {
    let one = Node::new(2, 1, Expr::Integer(1));
    let sum = Node::new(
        5,
        5,
        Expr::Binary(
            BinOpKind::Add,
            Box::new(Node::new(5, 1, Expr::Name(name(3, "x")))),
            Box::new(Node::new(9, 1, Expr::Unary(
                UnOpKind::Neg,
                Box::new(Node::new(10, 1, Expr::Integer(2))),
            ))),
        ),
    );
    let call = FuncCall::new(Node::new(0, 1, name(9, "f")), vec![one, sum]);
    assert_eq!(call.ident.value.id, 9);
    assert_eq!(call.args.len(), 2);
    assert_eq!(call.args[0].value, Expr::Integer(1));
    assert!(matches!(call.args[1].value, Expr::Binary(BinOpKind::Add, _, _)));
    let nested = Expr::Call(call);
    assert!(matches!(nested, Expr::Call(_)));
}

#[test]
fn node_keeps_place_and_payload() {
    let node = Node::new(4, 2, 'x');
    assert_eq!(node.start, 4);
    assert_eq!(node.length, 2);
    assert_eq!(node.value, 'x');
}

#[test]
fn identifiers_hold_names() {
    assert!(name(1, "hello_world").is_well_formed());
    assert!(name(1, "_").is_well_formed());
    assert!(name(1, "let").is_well_formed());
    assert!(!name(1, "").is_well_formed());
    assert!(!name(1, "foo1").is_well_formed());
    assert!(!name(1, "a b").is_well_formed());
    assert!(!name(1, "caf\u{e9}").is_well_formed());
}

#[test]
fn identifier_tokens_make_well_formed_identifiers() {
    for token in tokenize("alpha _beta Gamma_delta x") {
        match token.token_type {
            TokenType::Ident(val) => assert!(Ident { id: 0, val }.is_well_formed()),
            other => panic!("{:?}", other),
        }
    }
}

#[test]
fn variables_blocks_and_declarations() {
    let variable = Variable { ident: name(1, "x"), mutable: Mutability::Mut, ty: Type::Int };
    assert_eq!(variable.mutable, Mutability::Mut);
    assert_ne!(variable.mutable, Mutability::Not);
    assert_eq!(variable.ty, Type::Int);
    let outer = Block { parent: None, exprs: vec![Expr::Integer(1), Expr::Char('c')] };
    let inner = Block { parent: Some(Box::new(outer)), exprs: vec![Expr::Text("s".into())] };
    assert_eq!(inner.parent.as_ref().map(|block| block.exprs.len()), Some(2));
    assert_eq!(inner.exprs, vec![Expr::Text("s".into())]);
    let args = vec![
        styxc_syntax::ast::ParenArgument { name: name(2, "a"), ty: Type::Int },
        styxc_syntax::ast::ParenArgument { name: name(3, "b"), ty: Type::Float },
    ];
    let decl = FuncDeclare::new(name(4, "f"), inner, args, Type::Bool);
    assert_eq!(decl.ident().val, "f");
    assert_eq!(decl.method().exprs.len(), 1);
    assert_eq!(decl.args().len(), 2);
    assert_eq!(decl.args()[0].name.val, "a");
    assert_eq!(decl.args()[1].ty, Type::Float);
    assert_eq!(decl.ret_ty(), Type::Bool);
}
