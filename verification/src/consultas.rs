//! The four statements and the tree that each one parses into.

use vstd::prelude::*;
use vstd::string::StringExecFns;
use crate::campos::textos;
use crate::condicion::{BooleanExpr, ExpresionBooleana};
use crate::dato::{Fila, Value};

verus! {

/// The direction of one key of an ordering.
#[derive(Debug, PartialEq, Eq, Clone, Copy, Structural)]
pub enum OrderDirection {
    Asc,
    Desc,
}

/// One key of an ordering: a column and a direction.
#[derive(Debug, PartialEq)]
pub struct OrderClause {
    pub column: String,
    pub direccion: OrderDirection,
}

/// The mathematical value of an [`OrderClause`].
pub struct OrderKey {
    pub column: Seq<char>,
    pub direction: OrderDirection,
}

impl View for OrderClause {
    type V = OrderKey;

    open spec fn view(&self) -> OrderKey {
        OrderKey { column: self.column@, direction: self.direccion }
    }
}

/// The values of a list of keys.
pub open spec fn claves(v: Seq<OrderClause>) -> Seq<OrderKey> {
    Seq::new(v.len(), |i: int| v[i]@)
}

/// The values of a list of rows.
pub open spec fn filas(v: Seq<Fila>) -> Seq<Map<Seq<char>, Value>> {
    Seq::new(v.len(), |i: int| v[i]@)
}

/// The value of a condition that may be absent.
pub open spec fn condicion_de(c: Option<ExpresionBooleana>) -> Option<BooleanExpr> {
    match c {
        Some(e) => Some(e@),
        None => None,
    }
}

/// The value of an ordering that may be absent.
pub open spec fn orden_de(o: Option<Vec<OrderClause>>) -> Option<Seq<OrderKey>> {
    match o {
        Some(v) => Some(claves(v@)),
        None => None,
    }
}

/// The mathematical value of a statement.
pub enum Statement {
    Insert { table: Seq<char>, columns: Seq<Seq<char>>, rows: Seq<Map<Seq<char>, Value>> },
    Update { table: Seq<char>, changes: Map<Seq<char>, Value>, condition: Option<BooleanExpr> },
    Delete { table: Seq<char>, condition: Option<BooleanExpr> },
    Select {
        columns: Seq<Seq<char>>,
        table: Seq<char>,
        condition: Option<BooleanExpr>,
        order: Option<Seq<OrderKey>>,
    },
}

/// `INSERT INTO table (columns) VALUES (..) (..)`: rows to add to a table.
#[derive(Debug, PartialEq)]
pub struct InsertQuery {
    pub table: String,
    pub columns: Vec<String>,
    pub values: Vec<Fila>,
}

/// `UPDATE table SET column = value .. WHERE ..`: changes to the rows that
/// meet a condition.
#[derive(Debug, PartialEq)]
pub struct UpdateQuery {
    pub table: String,
    pub changes: Fila,
    pub where_condition: Option<ExpresionBooleana>,
}

/// `DELETE FROM table WHERE ..`: the rows that meet a condition leave.
#[derive(Debug, PartialEq)]
pub struct DeleteQuery {
    pub table: String,
    pub where_clause: Option<ExpresionBooleana>,
}

/// `SELECT columns FROM table WHERE .. ORDER BY ..`: the rows that meet a
/// condition, in an order, cut down to some columns.
#[derive(Debug, PartialEq)]
pub struct SelectQuery {
    pub columns_select: Vec<String>,
    pub table: String,
    pub where_clause: Option<ExpresionBooleana>,
    pub order_by: Option<Vec<OrderClause>>,
}

/// A statement of any of the four kinds.
#[derive(Debug, PartialEq)]
pub enum SQLQuery {
    Select(SelectQuery),
    Insert(InsertQuery),
    Update(UpdateQuery),
    Delete(DeleteQuery),
}

impl View for InsertQuery {
    type V = Statement;

    open spec fn view(&self) -> Statement {
        Statement::Insert {
            table: self.table@,
            columns: textos(self.columns@),
            rows: filas(self.values@),
        }
    }
}

impl View for UpdateQuery {
    type V = Statement;

    open spec fn view(&self) -> Statement {
        Statement::Update {
            table: self.table@,
            changes: self.changes@,
            condition: condicion_de(self.where_condition),
        }
    }
}

impl View for DeleteQuery {
    type V = Statement;

    open spec fn view(&self) -> Statement {
        Statement::Delete { table: self.table@, condition: condicion_de(self.where_clause) }
    }
}

impl View for SelectQuery {
    type V = Statement;

    open spec fn view(&self) -> Statement {
        Statement::Select {
            columns: textos(self.columns_select@),
            table: self.table@,
            condition: condicion_de(self.where_clause),
            order: orden_de(self.order_by),
        }
    }
}

impl View for SQLQuery {
    type V = Statement;

    open spec fn view(&self) -> Statement {
        match self {
            SQLQuery::Select(q) => q@,
            SQLQuery::Insert(q) => q@,
            SQLQuery::Update(q) => q@,
            SQLQuery::Delete(q) => q@,
        }
    }
}

impl InsertQuery {
    /// The statement that adds `values` to `table`.
    pub fn new(table: &String, columns: Vec<String>, values: Vec<Fila>) -> (r: InsertQuery)
        ensures
            r@ == (Statement::Insert {
                table: table@,
                columns: textos(columns@),
                rows: filas(values@),
            }),
    {
        InsertQuery { table: table.clone(), columns, values }
    }
}

impl UpdateQuery {
    /// The statement that applies `changes` to the rows of `table` that meet
    /// the condition.
    pub fn new(table: String, changes: Fila, where_condition: Option<ExpresionBooleana>) -> (r:
        UpdateQuery)
        ensures
            r@ == (Statement::Update {
                table: table@,
                changes: changes@,
                condition: condicion_de(where_condition),
            }),
    {
        UpdateQuery { table, changes, where_condition }
    }
}

impl DeleteQuery {
    /// The statement that removes from `table` the rows that meet the condition.
    pub fn new(table: &str, where_clause: Option<ExpresionBooleana>) -> (r: DeleteQuery)
        ensures
            r@ == (Statement::Delete { table: table@, condition: condicion_de(where_clause) }),
    {
        DeleteQuery { table: String::from_str(table), where_clause }
    }
}

impl SelectQuery {
    /// The statement that shows `columns_select` of the rows of `table` that
    /// meet the condition, in the order asked for.
    pub fn new(
        columns_select: Vec<String>,
        table: String,
        where_clause: Option<ExpresionBooleana>,
        order_by: Option<Vec<OrderClause>>,
    ) -> (r: SelectQuery)
        ensures
            r@ == (Statement::Select {
                columns: textos(columns_select@),
                table: table@,
                condition: condicion_de(where_clause),
                order: orden_de(order_by),
            }),
    {
        SelectQuery { columns_select, table, where_clause, order_by }
    }
}

impl SQLQuery {
    /// The name of the table that the statement works on.
    pub fn tabla(&self) -> (r: &String)
        ensures
            r@ == tabla_de(self@),
    {
        match self {
            SQLQuery::Select(q) => &q.table,
            SQLQuery::Insert(q) => &q.table,
            SQLQuery::Update(q) => &q.table,
            SQLQuery::Delete(q) => &q.table,
        }
    }
}

/// The name of the table that a statement works on.
pub open spec fn tabla_de(s: Statement) -> Seq<char> {
    match s {
        Statement::Insert { table, .. } => table,
        Statement::Update { table, .. } => table,
        Statement::Delete { table, .. } => table,
        Statement::Select { table, .. } => table,
    }
}

} // verus!
