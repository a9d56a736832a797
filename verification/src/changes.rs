//! Row-level changes, as subscribers are told of them.

use crate::rows::{Command, CommandView, Layer, LayerView, User, UserView};
use vstd::prelude::*;

verus! {

/// What happened to a row.
#[derive(Clone, Copy, Debug, PartialEq, Eq, Structural)]
pub enum Operation {
    Insert,
    Update,
    Delete,
}

/// A row of one of the three tables; the variant names the table.
#[derive(Debug, PartialEq, Eq)]
pub enum Row {
    User(User),
    Layer(Layer),
    Command(Command),
}

/// What a `Row` says.
pub enum RowView {
    User(UserView),
    Layer(LayerView),
    Command(CommandView),
}

impl View for Row {
    type V = RowView;

    open spec fn view(&self) -> RowView {
        match self {
            Row::User(u) => RowView::User(u@),
            Row::Layer(l) => RowView::Layer(l@),
            Row::Command(c) => RowView::Command(c@),
        }
    }
}

impl Clone for Row {
    fn clone(&self) -> (r: Self)
        ensures
            r@ == self@,
    {
        match self {
            Row::User(u) => Row::User(u.clone()),
            Row::Layer(l) => Row::Layer(l.clone()),
            Row::Command(c) => Row::Command(c.clone()),
        }
    }
}

/// One committed change: the operation and the row it left behind (for a
/// deletion, the row that went).
#[derive(Debug, PartialEq, Eq)]
pub struct Change {
    pub op: Operation,
    pub row: Row,
}

/// What a `Change` says.
pub struct ChangeView {
    pub op: Operation,
    pub row: RowView,
}

impl View for Change {
    type V = ChangeView;

    open spec fn view(&self) -> ChangeView {
        ChangeView { op: self.op, row: self.row@ }
    }
}

impl Clone for Change {
    fn clone(&self) -> (r: Self)
        ensures
            r@ == self@,
    {
        Change { op: self.op, row: self.row.clone() }
    }
}

/// The mathematical value of a run of changes, oldest first.
pub open spec fn changes_of(changes: Seq<Change>) -> Seq<ChangeView> {
    changes.map_values(|c: Change| c@)
}

/// The change that reports `row` as inserted.
pub open spec fn inserted(row: RowView) -> ChangeView {
    ChangeView { op: Operation::Insert, row }
}

/// The change that reports `row` as the new state of an existing row.
pub open spec fn updated(row: RowView) -> ChangeView {
    ChangeView { op: Operation::Update, row }
}

/// The change that reports `row` as deleted.
pub open spec fn deleted(row: RowView) -> ChangeView {
    ChangeView { op: Operation::Delete, row }
}

} // verus!
