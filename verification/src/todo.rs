//! The to-do list: its items, the filter a listing takes, and the rules a
//! change must pass before the store applies it.

use vstd::prelude::*;

use crate::text::{append, chars_of, string_of, trim, trim_vec};

verus! {

/// A to-do item.
#[derive(Debug, Clone, PartialEq, Eq)]
pub struct Todo {
    pub id: i64,
    pub title: String,
    pub completed: bool,
    pub created_at: String,
}

/// Which items a listing shows.
#[derive(Debug, Clone, Copy, PartialEq, Eq, Structural)]
pub enum TodoFilter {
    All,
    Active,
    Completed,
}

/// What can go wrong with a to-do change.
#[derive(Debug, Clone, PartialEq, Eq)]
pub enum TodoError {
    EmptyTitle,
    NotFound(i64),
    Database(String),
}

/// The filter lets an item with this completion state through.
pub open spec fn spec_filter_admits(filter: TodoFilter, completed: bool) -> bool {
    match filter {
        TodoFilter::All => true,
        TodoFilter::Active => !completed,
        TodoFilter::Completed => completed,
    }
}

/// The filter lets an item with this completion state through.
pub fn filter_admits(filter: TodoFilter, completed: bool) -> (r: bool)
    ensures
        r == spec_filter_admits(filter, completed),
{
    match filter {
        TodoFilter::All => true,
        TodoFilter::Active => !completed,
        TodoFilter::Completed => completed,
    }
}

/// The title stored for a new or renamed item: trimmed, and not empty.
pub fn todo_title(title: &str) -> (r: Result<String, TodoError>)
    ensures
        trim(title@).len() == 0 <==> r is Err,
        r matches Err(e) ==> e == TodoError::EmptyTitle,
        r matches Ok(s) ==> s@ == trim(title@),
{
    let t = trim_vec(&chars_of(title));
    if t.len() == 0 {
        Err(TodoError::EmptyTitle)
    } else {
        Ok(string_of(t.as_slice()))
    }
}

/// A change of item `id` that touched `rows` rows found the item.
pub fn require_found(rows: usize, id: i64) -> (r: Result<(), TodoError>)
    ensures
        rows == 0 <==> r is Err,
        r matches Err(e) ==> e == TodoError::NotFound(id),
{
    if rows == 0 {
        Err(TodoError::NotFound(id))
    } else {
        Ok(())
    }
}

/// Decimal digits of a natural number.
pub open spec fn digits(n: nat) -> Seq<char>
    decreases n,
{
    if n < 10 {
        seq![digit(n)]
    } else {
        digits(n / 10) + seq![digit(n % 10)]
    }
}

pub open spec fn digit(d: nat) -> char {
    if d == 0 {
        '0'
    } else if d == 1 {
        '1'
    } else if d == 2 {
        '2'
    } else if d == 3 {
        '3'
    } else if d == 4 {
        '4'
    } else if d == 5 {
        '5'
    } else if d == 6 {
        '6'
    } else if d == 7 {
        '7'
    } else if d == 8 {
        '8'
    } else {
        '9'
    }
}

/// Decimal text of an integer, with a leading `-` when negative.
pub open spec fn int_text(n: int) -> Seq<char> {
    if n < 0 {
        seq!['-'] + digits((-n) as nat)
    } else {
        digits(n as nat)
    }
}

fn digit_char(d: u64) -> (r: char)
    requires
        d < 10,
    ensures
        r == digit(d as nat),
{
    if d == 0 {
        '0'
    } else if d == 1 {
        '1'
    } else if d == 2 {
        '2'
    } else if d == 3 {
        '3'
    } else if d == 4 {
        '4'
    } else if d == 5 {
        '5'
    } else if d == 6 {
        '6'
    } else if d == 7 {
        '7'
    } else if d == 8 {
        '8'
    } else {
        '9'
    }
}

fn digits_of(n: u64) -> (r: Vec<char>)
    ensures
        r@ == digits(n as nat),
    decreases n,
{
    if n < 10 {
        vec![digit_char(n)]
    } else {
        let mut v = digits_of(n / 10);
        v.push(digit_char(n % 10));
        v
    }
}

/// Decimal text of an integer.
pub fn int_to_text(n: i64) -> (r: String)
    ensures
        r@ == int_text(n as int),
{
    if n < 0 {
        let m: u64 = if n == i64::MIN {
            9_223_372_036_854_775_808u64
        } else {
            (-n) as u64
        };
        let mut v = vec!['-'];
        append(&mut v, &digits_of(m));
        string_of(v.as_slice())
    } else {
        string_of(digits_of(n as u64).as_slice())
    }
}

/// The text shown for an error.
pub open spec fn spec_todo_message(e: TodoError) -> Seq<char> {
    match e {
        TodoError::EmptyTitle => "Title cannot be empty"@,
        TodoError::NotFound(id) => "Todo not found: "@ + int_text(id as int),
        TodoError::Database(d) => "Database error: "@ + d@,
    }
}

impl TodoError {
    /// The text shown for this error.
    pub fn message(&self) -> (r: String)
        ensures
            r@ == spec_todo_message(*self),
    {
        match self {
            TodoError::EmptyTitle => "Title cannot be empty".to_string(),
            TodoError::NotFound(id) => {
                let mut v = chars_of("Todo not found: ");
                append(&mut v, &chars_of(int_to_text(*id).as_str()));
                string_of(v.as_slice())
            },
            TodoError::Database(d) => {
                let mut v = chars_of("Database error: ");
                append(&mut v, &chars_of(d.as_str()));
                string_of(v.as_slice())
            },
        }
    }
}

} // verus!
