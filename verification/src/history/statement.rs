//! Database statements with their bound parameters.
use vstd::prelude::*;

verus! {

/// A value bound to a parameter of a statement.
#[derive(Debug)]
pub enum Value {
    Null,
    Integer(i64),
    /// A whole number that is bound as the nearest double.
    Double(i128),
    Text(String),
}

/// What a `Value` stands for.
pub enum ValueView {
    Null,
    Integer(int),
    Double(int),
    Text(Seq<char>),
}

impl View for Value {
    type V = ValueView;

    open spec fn view(&self) -> ValueView {
        match self {
            Value::Null => ValueView::Null,
            Value::Integer(i) => ValueView::Integer(*i as int),
            Value::Double(d) => ValueView::Double(*d as int),
            Value::Text(t) => ValueView::Text(t@),
        }
    }
}

/// One named parameter and the value bound to it.
#[derive(Debug)]
pub struct Param {
    pub name: &'static str,
    pub value: Value,
}

impl View for Param {
    type V = (Seq<char>, ValueView);

    open spec fn view(&self) -> (Seq<char>, ValueView) {
        (self.name@, self.value@)
    }
}

/// A statement for the database, ready to be run.
#[derive(Debug)]
pub struct Statement {
    pub sql: String,
    pub params: Vec<Param>,
}

/// What a `Statement` stands for: its text, and its parameters in order.
#[verifier::ext_equal]
pub struct StatementView {
    pub sql: Seq<char>,
    pub params: Seq<(Seq<char>, ValueView)>,
}

impl View for Statement {
    type V = StatementView;

    open spec fn view(&self) -> StatementView {
        StatementView { sql: self.sql@, params: self.params@.map_values(|p: Param| p@) }
    }
}

/// The views of a list of statements.
pub open spec fn views(statements: Seq<Statement>) -> Seq<StatementView> {
    statements.map_values(|s: Statement| s@)
}

/// The value of a text that may be missing.
pub open spec fn optional_text(text: Option<Seq<char>>) -> ValueView {
    match text {
        Some(t) => ValueView::Text(t),
        None => ValueView::Null,
    }
}

/// The value of an integer that may be missing.
pub open spec fn optional_integer(number: Option<int>) -> ValueView {
    match number {
        Some(n) => ValueView::Integer(n),
        None => ValueView::Null,
    }
}

/// The view of a text that may be missing.
pub open spec fn text_view(text: Option<String>) -> Option<Seq<char>> {
    match text {
        Some(t) => Some(t@),
        None => None,
    }
}

impl Statement {
    /// A statement with the given text and no parameter bound yet.
    pub fn new(sql: &str) -> (statement: Statement)
        ensures
            statement@ == (StatementView { sql: sql@, params: Seq::empty() }),
    {
        let statement = Statement { sql: sql.to_owned(), params: Vec::new() };
        assert(statement@.params =~= Seq::<(Seq<char>, ValueView)>::empty());
        statement
    }

    /// The statement with one more parameter bound.
    pub fn bind(self, name: &'static str, value: Value) -> (statement: Statement)
        ensures
            statement@ == (StatementView {
                sql: self@.sql,
                params: self@.params.push((name@, value@)),
            }),
            statement.params@ == self.params@.push(Param { name, value }),
    {
        let mut params = self.params;
        let ghost before = params@;
        params.push(Param { name, value });
        let statement = Statement { sql: self.sql, params };
        assert(statement@.params =~= before.map_values(|p: Param| p@).push((name@, value@)));
        statement
    }

    /// The statement with a text bound to a parameter.
    pub fn bind_text(self, name: &'static str, text: &str) -> (statement: Statement)
        ensures
            statement@ == (StatementView {
                sql: self@.sql,
                params: self@.params.push((name@, ValueView::Text(text@))),
            }),
            statement.params@.len() > 0,
            statement.params@ == self.params@.push(statement.params@.last()),
            statement.params@.last().name == name,
            statement.params@.last().value matches Value::Text(bound) && bound@ == text@,
    {
        self.bind(name, Value::Text(text.to_owned()))
    }

    /// The statement with an integer bound to a parameter.
    pub fn bind_integer(self, name: &'static str, number: i64) -> (statement: Statement)
        ensures
            statement@ == (StatementView {
                sql: self@.sql,
                params: self@.params.push((name@, ValueView::Integer(number as int))),
            }),
            statement.params@ == self.params@.push(Param { name, value: Value::Integer(number) }),
    {
        self.bind(name, Value::Integer(number))
    }
}

/// Whether a statement binds a value to a parameter.
pub open spec fn binds(statement: StatementView, name: Seq<char>, value: ValueView) -> bool {
    statement.params.contains((name, value))
}

/// A value stands for itself: a number for that number, a text for its characters.
pub proof fn law_values_stand_for_themselves(value: Value)
    ensures
        value is Null <==> value@ is Null,
        value matches Value::Integer(i) ==> value@ == ValueView::Integer(i as int),
        value matches Value::Double(d) ==> value@ == ValueView::Double(d as int),
        value matches Value::Text(text) ==> value@ == ValueView::Text(text@),
{
}

/// A statement stands for its text and for its parameters, each with its own name and
/// value, in order.
pub proof fn law_statements_stand_for_text_and_parameters(statement: Statement)
    ensures
        statement@.sql == statement.sql@,
        statement@.params.len() == statement.params@.len(),
        forall|i: int|
            0 <= i < statement.params@.len() ==> (#[trigger] statement@.params[i]).0
                == statement.params@[i].name@ && statement@.params[i].1
                == statement.params@[i].value@,
{
}

/// A parameter is bound behind those that were bound before, with its name and the very
/// value that was given; the text of the statement and the earlier parameters stay.
pub proof fn law_parameters_are_bound_one_after_the_other(
    statement: Statement,
    name: &'static str,
    value: Value,
    text: &str,
    number: i64,
    with_value: Statement,
    with_text: Statement,
    with_number: Statement,
)
    requires
        call_ensures(Statement::bind, (statement, name, value), with_value),
        call_ensures(Statement::bind_text, (statement, name, text), with_text),
        call_ensures(Statement::bind_integer, (statement, name, number), with_number),
    ensures
        with_value.sql@ == statement.sql@,
        with_text.sql@ == statement.sql@,
        with_number.sql@ == statement.sql@,
        with_value.params@ == statement.params@.push(Param { name, value }),
        with_number.params@ == statement.params@.push(Param { name, value: Value::Integer(number) }),
        with_text.params@.len() == statement.params@.len() + 1,
        with_text.params@.drop_last() == statement.params@,
        with_text.params@.last().name@ == name@,
        with_text.params@.last().value matches Value::Text(bound) && bound@ == text@,
{
    assert(with_text.params@.drop_last() =~= statement.params@);
}

/// A new statement has the given text and no parameters.
pub proof fn law_a_new_statement_is_bare(sql: &str, statement: Statement)
    requires
        call_ensures(Statement::new, (sql,), statement),
    ensures
        statement.sql@ == sql@,
        statement.params@.len() == 0,
{
    assert(statement@.params.len() == statement.params@.len());
}

} // verus!
