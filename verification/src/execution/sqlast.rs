//! The parser boundary: SQL text is handed to the external parser, and the
//! small statement shape this engine plans — a single-table SELECT with a
//! projection list and an optional WHERE — is carried over into the engine's
//! own abstract syntax.

use vstd::prelude::*;
use crate::execution::error::ExecutionError;
use crate::execution::expr::Operator;

verus! {

/// Declares the external parser's statement type.
#[verifier::external_type_specification]
#[verifier::external_body]
pub struct ExStatement(sqlparser::ast::Statement);

/// Declares the external parser's expression type.
#[verifier::external_type_specification]
#[verifier::external_body]
pub struct ExAstExpr(sqlparser::ast::Expr);

/// Declares the external parser's binary-operator type.
#[verifier::external_type_specification]
#[verifier::external_body]
pub struct ExBinaryOperator(sqlparser::ast::BinaryOperator);

/// Declares the external parser's select-list item type.
#[verifier::external_type_specification]
#[verifier::external_body]
pub struct ExSelectItem(sqlparser::ast::SelectItem);

/// Declares the external parser's FROM-clause entry type.
#[verifier::external_type_specification]
#[verifier::external_body]
pub struct ExTableWithJoins(sqlparser::ast::TableWithJoins);

/// Declares the external parser's SELECT-body type.
#[verifier::external_type_specification]
#[verifier::external_body]
pub struct ExSelect(sqlparser::ast::Select);

/// An expression of the engine's own SQL abstract syntax: column references
/// by name, literals, and binary operations.
#[derive(Debug)]
pub enum SqlExpr {
    /// A column referenced by name.
    Column(String),
    /// A quoted string literal.
    LiteralString(String),
    /// A numeric literal, kept as the digits written in the statement.
    LiteralNumber(String),
    /// A boolean literal.
    LiteralBool(bool),
    /// A binary comparison or boolean combinator.
    Binary { left: Box<SqlExpr>, op: Operator, right: Box<SqlExpr> },
}

/// One entry of a SELECT list.
#[derive(Debug)]
pub enum SqlSelectItem {
    /// An expression to project.
    Expression(SqlExpr),
    /// `*`: every column of the source, in schema order.
    Wildcard,
}

/// The statement shape the engine plans: a single-table SELECT.
#[derive(Debug)]
pub struct SqlSelect {
    pub projection: Vec<SqlSelectItem>,
    pub table: String,
    pub selection: Option<SqlExpr>,
}

/// One classified node of an external expression, fields moved out.
pub enum AstExprNode {
    Ident(String),
    Number(String),
    Str(String),
    Bool(bool),
    Binary(Box<sqlparser::ast::Expr>, sqlparser::ast::BinaryOperator, Box<sqlparser::ast::Expr>),
    Nested(Box<sqlparser::ast::Expr>),
    Unsupported,
}

/// One classified entry of an external select list.
pub enum AstSelectItem {
    Expression(sqlparser::ast::Expr),
    Wildcard,
    Unsupported,
}

/// Relies on sqlparser's `Parser::parse_sql` with the generic SQL dialect: it
/// turns SQL text into a list of statement trees, or a parser diagnostic.
#[verifier::external_body]
fn parse_sql_text(sql: &str) -> (r: Result<
    Vec<sqlparser::ast::Statement>,
    sqlparser::parser::ParserError,
>) {
    sqlparser::parser::Parser::parse_sql(&sqlparser::dialect::GenericDialect {}, sql)
}

/// Relies on sqlparser's `Statement`, `Query` and `SetExpr` shapes: the SELECT
/// body of a query statement, with a flag that is true exactly when the query
/// carries none of the clauses this engine does not lower at the query level
/// (WITH, ORDER BY, LIMIT, FETCH, locking, FOR, settings, FORMAT, pipes).
#[verifier::external_body]
fn statement_select(s: sqlparser::ast::Statement) -> (r: Option<
    (Box<sqlparser::ast::Select>, bool),
>) {
    match s {
        sqlparser::ast::Statement::Query(q) => {
            let plain = q.with.is_none() && q.order_by.is_none() && q.limit_clause.is_none()
                && q.fetch.is_none() && q.locks.is_empty() && q.for_clause.is_none()
                && q.settings.is_none() && q.format_clause.is_none()
                && q.pipe_operators.is_empty();
            match *q.body {
                sqlparser::ast::SetExpr::Select(sel) => Some((sel, plain)),
                _ => None,
            }
        },
        _ => None,
    }
}

/// Relies on sqlparser's `Select` shape: true exactly when the SELECT carries
/// none of the clauses this engine does not lower at the select level
/// (DISTINCT, TOP, EXCLUDE, INTO, lateral views, PREWHERE, CONNECT BY,
/// GROUP BY, cluster/distribute/sort, HAVING, named windows, QUALIFY, value
/// tables, or a non-standard flavor).
#[verifier::external_body]
fn select_is_plain(s: &sqlparser::ast::Select) -> (r: bool) {
    let plain_group = matches!(
        &s.group_by,
        sqlparser::ast::GroupByExpr::Expressions(v, m) if v.is_empty() && m.is_empty()
    );
    plain_group && s.optimizer_hints.is_empty() && s.distinct.is_none()
        && s.select_modifiers.is_none() && s.top.is_none() && s.exclude.is_none()
        && s.into.is_none() && s.lateral_views.is_empty() && s.prewhere.is_none()
        && s.connect_by.is_empty() && s.cluster_by.is_empty() && s.distribute_by.is_empty()
        && s.sort_by.is_empty() && s.having.is_none() && s.named_window.is_empty()
        && s.qualify.is_none() && s.value_table_mode.is_none()
        && matches!(s.flavor, sqlparser::ast::SelectFlavor::Standard)
}

/// Relies on sqlparser's `Select` shape: moves out the select list, the FROM
/// list and the optional WHERE.
#[verifier::external_body]
fn select_parts(s: sqlparser::ast::Select) -> (r: (
    Vec<sqlparser::ast::SelectItem>,
    Vec<sqlparser::ast::TableWithJoins>,
    Option<sqlparser::ast::Expr>,
)) {
    (s.projection, s.from, s.selection)
}

/// Relies on sqlparser's `TableWithJoins`, `TableFactor` and `ObjectName`:
/// hands back a plain single-part table name — the identifier's value, free
/// of quoting — and the number of joined tables. A multi-part name or a
/// non-table relation yields no name.
#[verifier::external_body]
fn table_reference(t: sqlparser::ast::TableWithJoins) -> (r: (Option<String>, usize)) {
    let joins = t.joins.len();
    match t.relation {
        sqlparser::ast::TableFactor::Table { mut name, .. } => {
            if name.0.len() != 1 {
                return (None, joins);
            }
            match name.0.remove(0) {
                sqlparser::ast::ObjectNamePart::Identifier(id) => (Some(id.value), joins),
                _ => (None, joins),
            }
        },
        _ => (None, joins),
    }
}

/// Relies on sqlparser's `SelectItem` and `WildcardAdditionalOptions`:
/// classifies one select-list entry. A wildcard carrying any of its optional
/// modifiers (ILIKE, EXCLUDE, EXCEPT, REPLACE, RENAME, an alias) is not a
/// plain wildcard and is handed back as unsupported.
#[verifier::external_body]
fn select_item_node(i: sqlparser::ast::SelectItem) -> (r: AstSelectItem) {
    match i {
        sqlparser::ast::SelectItem::UnnamedExpr(e) => AstSelectItem::Expression(e),
        sqlparser::ast::SelectItem::Wildcard(o) => {
            let plain = o.opt_ilike.is_none() && o.opt_exclude.is_none()
                && o.opt_except.is_none() && o.opt_replace.is_none() && o.opt_rename.is_none()
                && o.opt_alias.is_none();
            if plain {
                AstSelectItem::Wildcard
            } else {
                AstSelectItem::Unsupported
            }
        },
        _ => AstSelectItem::Unsupported,
    }
}

/// Relies on sqlparser's `Expr` and `Value`: classifies one expression node,
/// moving its fields out.
#[verifier::external_body]
fn ast_expr_node(e: sqlparser::ast::Expr) -> (r: AstExprNode) {
    match e {
        sqlparser::ast::Expr::Identifier(id) => AstExprNode::Ident(id.value),
        sqlparser::ast::Expr::BinaryOp { left, op, right } => AstExprNode::Binary(left, op, right),
        sqlparser::ast::Expr::Nested(inner) => AstExprNode::Nested(inner),
        sqlparser::ast::Expr::Value(v) => match v.value {
            sqlparser::ast::Value::Number(s, _) => AstExprNode::Number(s),
            sqlparser::ast::Value::SingleQuotedString(s) => AstExprNode::Str(s),
            sqlparser::ast::Value::Boolean(b) => AstExprNode::Bool(b),
            _ => AstExprNode::Unsupported,
        },
        _ => AstExprNode::Unsupported,
    }
}

/// Relies on sqlparser's `BinaryOperator`: maps each operator this engine
/// evaluates onto its own operator, and `None` for the rest.
#[verifier::external_body]
fn binop_node(op: &sqlparser::ast::BinaryOperator) -> (r: Option<Operator>) {
    match op {
        sqlparser::ast::BinaryOperator::Eq => Some(Operator::Eq),
        sqlparser::ast::BinaryOperator::NotEq => Some(Operator::NotEq),
        sqlparser::ast::BinaryOperator::Lt => Some(Operator::Lt),
        sqlparser::ast::BinaryOperator::LtEq => Some(Operator::LtEq),
        sqlparser::ast::BinaryOperator::Gt => Some(Operator::Gt),
        sqlparser::ast::BinaryOperator::GtEq => Some(Operator::GtEq),
        sqlparser::ast::BinaryOperator::And => Some(Operator::And),
        sqlparser::ast::BinaryOperator::Or => Some(Operator::Or),
        _ => None,
    }
}

/// How deep an expression tree the converter follows before giving up.
pub const MAX_EXPR_DEPTH: u32 = 64;

/// Carries one external expression over into the engine's own syntax,
/// following at most `depth` levels of nesting.
fn convert_expr(e: sqlparser::ast::Expr, depth: u32) -> (r: Result<SqlExpr, ExecutionError>)
    ensures
        r matches Err(err) ==> err matches ExecutionError::NotImplemented(_),
    decreases depth,
{
    if depth == 0 {
        return Err(ExecutionError::NotImplemented("expression nesting too deep".to_owned()));
    }
    match ast_expr_node(e) {
        AstExprNode::Ident(s) => Ok(SqlExpr::Column(s)),
        AstExprNode::Number(s) => Ok(SqlExpr::LiteralNumber(s)),
        AstExprNode::Str(s) => Ok(SqlExpr::LiteralString(s)),
        AstExprNode::Bool(b) => Ok(SqlExpr::LiteralBool(b)),
        AstExprNode::Nested(inner) => convert_expr(*inner, depth - 1),
        AstExprNode::Binary(l, op, r) => {
            let our_op = match binop_node(&op) {
                Some(o) => o,
                None => {
                    return Err(
                        ExecutionError::NotImplemented("unsupported binary operator".to_owned()),
                    );
                },
            };
            let left = match convert_expr(*l, depth - 1) {
                Ok(x) => x,
                Err(err) => {
                    return Err(err);
                },
            };
            let right = match convert_expr(*r, depth - 1) {
                Ok(x) => x,
                Err(err) => {
                    return Err(err);
                },
            };
            Ok(SqlExpr::Binary { left: Box::new(left), op: our_op, right: Box::new(right) })
        },
        AstExprNode::Unsupported => Err(
            ExecutionError::NotImplemented("unsupported expression".to_owned()),
        ),
    }
}

/// Parses SQL text and carries the single SELECT statement it must hold over
/// into the engine's own syntax. Fails with the parser's own diagnostic on
/// malformed SQL and with an unsupported-shape error on anything but a plain
/// single-table SELECT; it produces no other kind of failure.
pub(crate) fn parse_select(sql: &str) -> (r: Result<SqlSelect, ExecutionError>)
    ensures
        r matches Err(err) ==> (err matches ExecutionError::ParserError(_)
            || err matches ExecutionError::NotImplemented(_)),
{
    let mut statements = match parse_sql_text(sql) {
        Ok(v) => v,
        Err(e) => {
            return Err(ExecutionError::ParserError(e));
        },
    };
    if statements.len() != 1 {
        return Err(
            ExecutionError::NotImplemented("exactly one SQL statement is expected".to_owned()),
        );
    }
    let stmt = statements.remove(0);
    let (body, plain_query) = match statement_select(stmt) {
        Some(parts) => parts,
        None => {
            return Err(
                ExecutionError::NotImplemented("only SELECT statements are supported".to_owned()),
            );
        },
    };
    if !plain_query || !select_is_plain(&body) {
        return Err(
            ExecutionError::NotImplemented(
                "the statement carries a clause this engine does not lower".to_owned(),
            ),
        );
    }
    let (items, mut from, selection) = select_parts(*body);
    if from.len() != 1 {
        return Err(
            ExecutionError::NotImplemented("exactly one table is expected in FROM".to_owned()),
        );
    }
    let entry = from.remove(0);
    let (name_opt, join_count) = table_reference(entry);
    if join_count != 0 {
        return Err(ExecutionError::NotImplemented("joins are not supported".to_owned()));
    }
    let table = match name_opt {
        Some(n) => n,
        None => {
            return Err(
                ExecutionError::NotImplemented("only plain table names are supported".to_owned()),
            );
        },
    };
    let mut items = items;
    let mut projection: Vec<SqlSelectItem> = Vec::new();
    let n = items.len();
    let mut i: usize = 0;
    while i < n
        invariant
            i <= n,
            n == items@.len() + i,
        decreases n - i,
    {
        let item = items.remove(0);
        match select_item_node(item) {
            AstSelectItem::Expression(e) => {
                let converted = match convert_expr(e, MAX_EXPR_DEPTH) {
                    Ok(x) => x,
                    Err(err) => {
                        return Err(err);
                    },
                };
                projection.push(SqlSelectItem::Expression(converted));
            },
            AstSelectItem::Wildcard => {
                projection.push(SqlSelectItem::Wildcard);
            },
            AstSelectItem::Unsupported => {
                return Err(
                    ExecutionError::NotImplemented(
                        "only plain expressions and * are supported in the select list".to_owned(),
                    ),
                );
            },
        }
        i = i + 1;
    }
    let where_clause = match selection {
        Some(e) => {
            let converted = match convert_expr(e, MAX_EXPR_DEPTH) {
                Ok(x) => x,
                Err(err) => {
                    return Err(err);
                },
            };
            Some(converted)
        },
        None => None,
    };
    Ok(SqlSelect { projection, table, selection: where_clause })
}

} // verus!
